//! Ordered sets of strings: the elements are kept strictly increasing in
//! the byte-wise (equivalently, code-point-wise) lexicographic order that
//! `String`'s `Ord` uses, so iteration order matches a `BTreeSet<String>`.
//! (vstd's `BTreeSet` specifications hold only for keys whose ordering it
//! has laws for: integers, tuples and options of them, not `String`.)

use vstd::prelude::*;
use crate::text::{chars_of, strings_view};

verus! {

/// `a` sorts strictly before `b`.
pub open spec fn lex_lt(a: Seq<char>, b: Seq<char>) -> bool
    decreases a.len(),
{
    if a.len() == 0 {
        b.len() > 0
    } else if b.len() == 0 {
        false
    } else if (a[0] as u32) < (b[0] as u32) {
        true
    } else if a[0] == b[0] {
        lex_lt(a.skip(1), b.skip(1))
    } else {
        false
    }
}

proof fn lemma_char_u32_injective(c: char, d: char)
    ensures
        (c as u32 == d as u32) ==> c == d,
{
}

pub proof fn lemma_lex_irreflexive(a: Seq<char>)
    ensures
        !lex_lt(a, a),
    decreases a.len(),
{
    if a.len() > 0 {
        lemma_lex_irreflexive(a.skip(1));
    }
}

pub proof fn lemma_lex_transitive(a: Seq<char>, b: Seq<char>, c: Seq<char>)
    requires
        lex_lt(a, b),
        lex_lt(b, c),
    ensures
        lex_lt(a, c),
    decreases a.len(),
{
    if a.len() > 0 && b.len() > 0 && c.len() > 0 {
        if a[0] == b[0] && b[0] == c[0] {
            lemma_lex_transitive(a.skip(1), b.skip(1), c.skip(1));
        }
    }
}

pub proof fn lemma_lex_total(a: Seq<char>, b: Seq<char>)
    ensures
        a == b || lex_lt(a, b) || lex_lt(b, a),
    decreases a.len(),
{
    if a.len() > 0 && b.len() > 0 {
        lemma_char_u32_injective(a[0], b[0]);
        if a[0] == b[0] {
            lemma_lex_total(a.skip(1), b.skip(1));
            if a.skip(1) == b.skip(1) {
                assert(a =~= seq![a[0]] + a.skip(1));
                assert(b =~= seq![b[0]] + b.skip(1));
            }
        }
    } else if a.len() == 0 && b.len() == 0 {
        assert(a =~= b);
    }
}

pub proof fn lemma_lex_asymmetric(a: Seq<char>, b: Seq<char>)
    requires
        lex_lt(a, b),
    ensures
        !lex_lt(b, a),
{
    if lex_lt(b, a) {
        lemma_lex_transitive(a, b, a);
        lemma_lex_irreflexive(a);
    }
}

/// Whether `a` sorts strictly before `b`.
pub fn lex_less(a: &str, b: &str) -> (r: bool)
    ensures
        r == lex_lt(a@, b@),
{
    let x = chars_of(a);
    let y = chars_of(b);
    let mut i: usize = 0;
    assert(a@.skip(0) =~= a@);
    assert(b@.skip(0) =~= b@);
    while i < x.len() && i < y.len() && x[i] == y[i]
        invariant
            i <= x.len(),
            i <= y.len(),
            x@ == a@,
            y@ == b@,
            lex_lt(a@, b@) == lex_lt(a@.skip(i as int), b@.skip(i as int)),
        decreases x.len() - i,
    {
        assert(a@.skip(i as int).skip(1) =~= a@.skip(i + 1));
        assert(b@.skip(i as int).skip(1) =~= b@.skip(i + 1));
        i += 1;
    }
    if i == x.len() {
        i < y.len()
    } else if i == y.len() {
        false
    } else {
        (x[i] as u32) < (y[i] as u32)
    }
}

pub open spec fn strictly_sorted(s: Seq<Seq<char>>) -> bool {
    forall|i: int, j: int| 0 <= i < j < s.len() ==> lex_lt(#[trigger] s[i], #[trigger] s[j])
}

/// A set of strings kept in increasing order.
#[derive(Debug)]
pub struct StrSet {
    items: Vec<String>,
}

impl StrSet {
    /// The elements, in increasing order.
    pub closed spec fn view(&self) -> Seq<Seq<char>> {
        strings_view(self.items@)
    }

    pub closed spec fn wf(&self) -> bool {
        strictly_sorted(self.view())
    }

    /// An empty set.
    pub fn new() -> (r: StrSet)
        ensures
            r.wf(),
            r.view().len() == 0,
    {
        StrSet { items: Vec::new() }
    }

    pub fn len(&self) -> (r: usize)
        ensures
            r == self.view().len(),
    {
        self.items.len()
    }

    pub fn is_empty(&self) -> (r: bool)
        ensures
            r == (self.view().len() == 0),
    {
        self.items.len() == 0
    }

    /// Whether `s` is an element.
    pub fn contains(&self, s: &str) -> (r: bool)
        ensures
            r == self.view().contains(s@),
    {
        let mut i: usize = 0;
        while i < self.items.len()
            invariant
                i <= self.items@.len(),
                forall|k: int| 0 <= k < i ==> self.view()[k] != s@,
            decreases self.items@.len() - i,
        {
            if crate::text::str_eq(self.items[i].as_str(), s) {
                assert(self.view()[i as int] == s@);
                return true;
            }
            i += 1;
        }
        false
    }

    /// Add `s` (no effect when it is already an element).
    pub fn insert(&mut self, s: String)
        requires
            old(self).wf(),
        ensures
            final(self).wf(),
            final(self).view().to_set() == old(self).view().to_set().insert(s@),
    {
        let ghost before = self.view();
        let mut pos: usize = 0;
        while pos < self.items.len() && lex_less(self.items[pos].as_str(), s.as_str())
            invariant
                pos <= self.items@.len(),
                before == self.view(),
                strictly_sorted(before),
                forall|k: int| 0 <= k < pos ==> lex_lt(#[trigger] before[k], s@),
            decreases self.items@.len() - pos,
        {
            pos += 1;
        }
        if pos < self.items.len() && crate::text::str_eq(self.items[pos].as_str(), s.as_str()) {
            assert(before.to_set() =~= before.to_set().insert(s@)) by {
                assert(before[pos as int] == s@);
            }
            return;
        }
        proof {
            if pos < before.len() {
                lemma_lex_total(before[pos as int], s@);
                assert(lex_lt(s@, before[pos as int]));
            }
        }
        self.items.insert(pos, s);
        let ghost after = self.view();
        assert(after =~= before.insert(pos as int, s@));
        assert forall|i: int, j: int| 0 <= i < j < after.len() implies lex_lt(
            #[trigger] after[i],
            #[trigger] after[j],
        ) by {
            if j < pos {
                assert(after[i] == before[i] && after[j] == before[j]);
            } else if j == pos {
                assert(after[i] == before[i]);
            } else if i == pos {
                assert(after[j] == before[j - 1]);
                if j - 1 > pos {
                    lemma_lex_transitive(s@, before[pos as int], before[j - 1]);
                }
            } else if i < pos {
                assert(after[i] == before[i] && after[j] == before[j - 1]);
            } else {
                assert(after[i] == before[i - 1] && after[j] == before[j - 1]);
            }
        }
        assert(after.to_set() =~= before.to_set().insert(s@)) by {
            assert forall|x: Seq<char>| after.to_set().contains(x) implies before.to_set().insert(
                s@,
            ).contains(x) by {
                let k = choose|k: int| 0 <= k < after.len() && after[k] == x;
                if k < pos {
                    assert(before[k] == x);
                } else if k > pos {
                    assert(before[k - 1] == x);
                }
            }
            assert forall|x: Seq<char>| before.to_set().insert(s@).contains(x) implies after.to_set().contains(
                x,
            ) by {
                if x == s@ {
                    assert(after[pos as int] == x);
                } else {
                    let k = choose|k: int| 0 <= k < before.len() && before[k] == x;
                    if k < pos {
                        assert(after[k] == x);
                    } else {
                        assert(after[k + 1] == x);
                    }
                }
            }
        }
    }

    /// Remove `s` (no effect when it is not an element).
    pub fn remove(&mut self, s: &str)
        requires
            old(self).wf(),
        ensures
            final(self).wf(),
            final(self).view().to_set() == old(self).view().to_set().remove(s@),
    {
        let ghost before = self.view();
        let mut i: usize = 0;
        while i < self.items.len()
            invariant
                i <= self.items@.len(),
                before == self.view(),
                before == old(self).view(),
                strictly_sorted(before),
                forall|k: int| 0 <= k < i ==> before[k] != s@,
            decreases self.items@.len() - i,
        {
            if crate::text::str_eq(self.items[i].as_str(), s) {
                self.items.remove(i);
                let ghost after = self.view();
                assert(after =~= before.remove(i as int));
                assert forall|a: int, b: int| 0 <= a < b < after.len() implies lex_lt(
                    #[trigger] after[a],
                    #[trigger] after[b],
                ) by {
                    if b < i {
                        assert(after[a] == before[a] && after[b] == before[b]);
                    } else if a < i {
                        assert(after[a] == before[a] && after[b] == before[b + 1]);
                    } else {
                        assert(after[a] == before[a + 1] && after[b] == before[b + 1]);
                    }
                }
                assert(after.to_set() =~= before.to_set().remove(s@)) by {
                    assert forall|x: Seq<char>| after.to_set().contains(x) implies before.to_set().remove(
                        s@,
                    ).contains(x) by {
                        let k = choose|k: int| 0 <= k < after.len() && after[k] == x;
                        if k < i {
                            assert(before[k] == x);
                            assert(x != s@);
                        } else {
                            assert(before[k + 1] == x);
                            assert(before[i as int] == s@);
                            assert(lex_lt(before[i as int], before[k + 1]));
                            if x == s@ {
                                lemma_lex_irreflexive(x);
                            }
                        }
                    }
                    assert forall|x: Seq<char>| before.to_set().remove(s@).contains(x) implies after.to_set().contains(
                        x,
                    ) by {
                        let k = choose|k: int| 0 <= k < before.len() && before[k] == x;
                        if k < i {
                            assert(after[k] == x);
                        } else {
                            assert(k != i);
                            assert(after[k - 1] == x);
                        }
                    }
                }
                return;
            }
            i += 1;
        }
        assert(before.to_set() =~= before.to_set().remove(s@)) by {
            assert forall|x: Seq<char>| before.to_set().contains(x) implies x != s@ by {
                let k = choose|k: int| 0 <= k < before.len() && before[k] == x;
            }
        }
    }

    /// The elements, in increasing order.
    pub fn to_vec(&self) -> (r: Vec<String>)
        ensures
            strings_view(r@) == self.view(),
    {
        let mut out: Vec<String> = Vec::new();
        let mut i: usize = 0;
        while i < self.items.len()
            invariant
                i <= self.items@.len(),
                strings_view(out@) == self.view().take(i as int),
            decreases self.items@.len() - i,
        {
            let c = self.items[i].clone();
            assert(c@ == self.view()[i as int]);
            let ghost prev = strings_view(out@);
            out.push(c);
            assert(strings_view(out@) =~= prev.push(c@));
            assert(strings_view(out@) =~= self.view().take(i + 1));
            i += 1;
        }
        assert(self.view().take(self.items@.len() as int) =~= self.view());
        out
    }

    /// A copy of the set.
    pub fn copy(&self) -> (r: StrSet)
        requires
            self.wf(),
        ensures
            r.wf(),
            r.view() == self.view(),
    {
        StrSet { items: self.to_vec() }
    }
}

/// A strictly sorted sequence is determined by its elements.
pub proof fn lemma_sorted_unique(a: Seq<Seq<char>>, b: Seq<Seq<char>>)
    requires
        strictly_sorted(a),
        strictly_sorted(b),
        a.to_set() == b.to_set(),
    ensures
        a == b,
    decreases a.len() + b.len(),
{
    if a.len() == 0 || b.len() == 0 {
        if a.len() > 0 {
            assert(a.to_set().contains(a[0]));
        }
        if b.len() > 0 {
            assert(b.to_set().contains(b[0]));
        }
        assert(a =~= b);
    } else {
        let x = a.last();
        let y = b.last();
        assert(a.to_set().contains(x));
        assert(b.to_set().contains(y));
        let ka = choose|k: int| 0 <= k < a.len() && a[k] == y;
        let kb = choose|k: int| 0 <= k < b.len() && b[k] == x;
        lemma_lex_total(x, y);
        if x != y {
            if lex_lt(x, y) {
                if ka < a.len() - 1 {
                    lemma_lex_asymmetric(a[ka], a[a.len() - 1]);
                }
                lemma_lex_irreflexive(x);
            } else {
                if kb < b.len() - 1 {
                    lemma_lex_asymmetric(b[kb], b[b.len() - 1]);
                }
                lemma_lex_irreflexive(y);
            }
        }
        let ad = a.drop_last();
        let bd = b.drop_last();
        assert(ad.to_set() =~= bd.to_set()) by {
            assert forall|z: Seq<char>| ad.to_set().contains(z) implies bd.to_set().contains(z) by {
                let k = choose|k: int| 0 <= k < ad.len() && ad[k] == z;
                assert(lex_lt(z, x));
                assert(b.to_set().contains(z));
                let j = choose|j: int| 0 <= j < b.len() && b[j] == z;
                if j == b.len() - 1 {
                    lemma_lex_irreflexive(z);
                }
                assert(bd[j] == z);
            }
            assert forall|z: Seq<char>| bd.to_set().contains(z) implies ad.to_set().contains(z) by {
                let k = choose|k: int| 0 <= k < bd.len() && bd[k] == z;
                assert(lex_lt(z, y));
                assert(a.to_set().contains(z));
                let j = choose|j: int| 0 <= j < a.len() && a[j] == z;
                if j == a.len() - 1 {
                    lemma_lex_irreflexive(z);
                }
                assert(ad[j] == z);
            }
        }
        lemma_sorted_unique(ad, bd);
        assert(a =~= ad.push(x));
        assert(b =~= bd.push(y));
    }
}

/// A well-formed set lists its elements in strictly increasing order.
pub proof fn lemma_wf_sorted(s: &StrSet)
    requires
        s.wf(),
    ensures
        strictly_sorted(s.view()),
{
}

} // verus!
