//! Whitespace-stable source formatter.
//!
//! The formatter preserves comments and layout while normalizing line
//! endings, trailing whitespace, leading tab indentation, runs of blank
//! lines and the final newline.

use vstd::prelude::*;
use crate::text::{chars_of, push_chars, string_from_chars};

verus! {

// ---------------------------------------------------------------------
// Mathematical model
// ---------------------------------------------------------------------

/// `\r\n` and lone `\r` both become `\n`.
pub open spec fn normalize_newlines(s: Seq<char>) -> Seq<char>
    decreases s.len(),
{
    if s.len() == 0 {
        seq![]
    } else if s[0] == '\r' && s.len() > 1 && s[1] == '\n' {
        seq!['\n'] + normalize_newlines(s.skip(2))
    } else if s[0] == '\r' {
        seq!['\n'] + normalize_newlines(s.skip(1))
    } else {
        seq![s[0]] + normalize_newlines(s.skip(1))
    }
}

/// The pieces of `s` between `\n` separators (`k` separators give `k + 1`
/// pieces, as `str::split` does).
pub open spec fn split_lines(s: Seq<char>) -> Seq<Seq<char>>
    decreases s.len(),
{
    if s.len() == 0 {
        seq![seq![]]
    } else {
        let prev = split_lines(s.drop_last());
        if s.last() == '\n' {
            prev.push(seq![])
        } else {
            prev.update(prev.len() - 1, prev.last().push(s.last()))
        }
    }
}

pub open spec fn is_blank_char(c: char) -> bool {
    c == ' ' || c == '\t'
}

/// `line` without its trailing spaces and tabs.
pub open spec fn trim_trailing(line: Seq<char>) -> Seq<char>
    decreases line.len(),
{
    if line.len() > 0 && is_blank_char(line.last()) {
        trim_trailing(line.drop_last())
    } else {
        line
    }
}

/// Length of the leading run of spaces and tabs.
pub open spec fn lead_len(s: Seq<char>) -> nat
    decreases s.len(),
{
    if s.len() > 0 && is_blank_char(s[0]) {
        1 + lead_len(s.skip(1))
    } else {
        0
    }
}

pub open spec fn spaces(n: nat) -> Seq<char> {
    Seq::new(n, |i: int| ' ')
}

/// Each tab becomes `width` spaces; spaces stay.
pub open spec fn expand_tabs(s: Seq<char>, width: nat) -> Seq<char>
    decreases s.len(),
{
    if s.len() == 0 {
        seq![]
    } else {
        expand_tabs(s.drop_last(), width) + (if s.last() == '\t' {
            spaces(width)
        } else {
            seq![s.last()]
        })
    }
}

/// Leading indentation that holds a tab is expanded; any other line stays.
pub open spec fn normalize_indent(s: Seq<char>, width: nat) -> Seq<char> {
    let e = lead_len(s) as int;
    if e == 0 || !s.take(e).contains('\t') {
        s
    } else {
        expand_tabs(s.take(e), width) + s.skip(e)
    }
}

pub open spec fn clean_line(line: Seq<char>, width: nat) -> Seq<char> {
    normalize_indent(trim_trailing(line), width)
}

/// Kept lines and the length of the current blank run after feeding `lines`.
pub open spec fn collapse(lines: Seq<Seq<char>>, max_blank: nat) -> (Seq<Seq<char>>, nat)
    decreases lines.len(),
{
    if lines.len() == 0 {
        (seq![], 0)
    } else {
        let (kept, run) = collapse(lines.drop_last(), max_blank);
        let line = lines.last();
        if line.len() == 0 {
            if kept.len() > 0 && run + 1 <= max_blank {
                (kept.push(line), run + 1)
            } else {
                (kept, run + 1)
            }
        } else {
            (kept.push(line), 0)
        }
    }
}

pub open spec fn strip_trailing_blank_lines(lines: Seq<Seq<char>>) -> Seq<Seq<char>>
    decreases lines.len(),
{
    if lines.len() > 0 && lines.last().len() == 0 {
        strip_trailing_blank_lines(lines.drop_last())
    } else {
        lines
    }
}

/// The lines separated by `\n`.
pub open spec fn join_lines(lines: Seq<Seq<char>>) -> Seq<char>
    decreases lines.len(),
{
    if lines.len() == 0 {
        seq![]
    } else if lines.len() == 1 {
        lines[0]
    } else {
        join_lines(lines.drop_last()) + seq!['\n'] + lines.last()
    }
}

/// The lines of the formatted text, before joining.
pub open spec fn formatted_lines(source: Seq<char>, max_blank: nat, width: nat) -> Seq<Seq<char>> {
    let lines = split_lines(normalize_newlines(source));
    let cleaned = lines.map_values(|l: Seq<char>| clean_line(l, width));
    strip_trailing_blank_lines(collapse(cleaned, max_blank).0)
}

/// What the formatter produces for `source`.
pub open spec fn format_spec(source: Seq<char>, max_blank: nat, width: nat) -> Seq<char> {
    join_lines(formatted_lines(source, max_blank, width)) + seq!['\n']
}

} // verus!

verus! {

// ---------------------------------------------------------------------
// Executable steps
// ---------------------------------------------------------------------

fn normalize_newlines_exec(s: &Vec<char>) -> (r: Vec<char>)
    ensures
        r@ == normalize_newlines(s@),
{
    let mut out: Vec<char> = Vec::new();
    let mut i: usize = 0;
    assert(s@.skip(0) =~= s@);
    while i < s.len()
        invariant
            i <= s.len(),
            normalize_newlines(s@) == out@ + normalize_newlines(s@.skip(i as int)),
        decreases s.len() - i,
    {
        let ghost rest = s@.skip(i as int);
        if s[i] == '\r' && i + 1 < s.len() && s[i + 1] == '\n' {
            assert(rest.skip(2) =~= s@.skip(i + 2));
            out.push('\n');
            assert(out@ + normalize_newlines(s@.skip(i + 2)) =~= (out@.drop_last()) + (seq!['\n']
                + normalize_newlines(rest.skip(2))));
            i += 2;
        } else {
            let c = if s[i] == '\r' { '\n' } else { s[i] };
            assert(rest.skip(1) =~= s@.skip(i + 1));
            out.push(c);
            assert(out@ + normalize_newlines(s@.skip(i + 1)) =~= (out@.drop_last()) + (seq![c]
                + normalize_newlines(rest.skip(1))));
            i += 1;
        }
    }
    assert(out@ + normalize_newlines(s@.skip(i as int)) =~= out@);
    out
}

pub open spec fn lines_view(v: Seq<Vec<char>>) -> Seq<Seq<char>> {
    v.map_values(|l: Vec<char>| l@)
}

proof fn lemma_split_lines_nonempty(s: Seq<char>)
    ensures
        split_lines(s).len() >= 1,
    decreases s.len(),
{
    if s.len() > 0 {
        lemma_split_lines_nonempty(s.drop_last());
    }
}

fn split_lines_exec(s: &Vec<char>) -> (r: Vec<Vec<char>>)
    ensures
        lines_view(r@) == split_lines(s@),
{
    let mut done: Vec<Vec<char>> = Vec::new();
    let mut cur: Vec<char> = Vec::new();
    let mut i: usize = 0;
    assert(s@.take(0) =~= Seq::<char>::empty());
    assert(lines_view(done@).push(cur@) =~= seq![Seq::<char>::empty()]);
    while i < s.len()
        invariant
            i <= s.len(),
            lines_view(done@).push(cur@) == split_lines(s@.take(i as int)),
        decreases s.len() - i,
    {
        let c = s[i];
        let ghost prefix = s@.take(i + 1);
        assert(prefix.drop_last() =~= s@.take(i as int));
        proof {
            lemma_split_lines_nonempty(s@.take(i as int));
        }
        if c == '\n' {
            let finished = cur;
            done.push(finished);
            cur = Vec::new();
            assert(lines_view(done@) =~= lines_view(done@.drop_last()).push(finished@));
            assert(lines_view(done@).push(cur@) =~= split_lines(prefix));
        } else {
            let ghost before = lines_view(done@).push(cur@);
            cur.push(c);
            assert(lines_view(done@).push(cur@) =~= before.update(before.len() - 1, before.last().push(c)));
        }
        i += 1;
    }
    assert(s@.take(s.len() as int) =~= s@);
    let mut all = done;
    all.push(cur);
    assert(lines_view(all@) =~= split_lines(s@));
    all
}

fn trim_trailing_whitespace(line: &Vec<char>) -> (r: Vec<char>)
    ensures
        r@ == trim_trailing(line@),
{
    let mut end: usize = line.len();
    assert(line@.take(end as int) =~= line@);
    while end > 0 && (line[end - 1] == ' ' || line[end - 1] == '\t')
        invariant
            end <= line.len(),
            trim_trailing(line@) == trim_trailing(line@.take(end as int)),
        decreases end,
    {
        assert(line@.take(end as int).drop_last() =~= line@.take(end - 1));
        end -= 1;
    }
    let mut out: Vec<char> = Vec::new();
    let mut i: usize = 0;
    while i < end
        invariant
            i <= end <= line.len(),
            out@ == line@.take(i as int),
        decreases end - i,
    {
        out.push(line[i]);
        assert(line@.take(i + 1) =~= line@.take(i as int).push(line@[i as int]));
        i += 1;
    }
    out
}

} // verus!

verus! {

proof fn lemma_lead_len(s: Seq<char>, e: int)
    requires
        0 <= e <= s.len(),
        forall|k: int| 0 <= k < e ==> is_blank_char(#[trigger] s[k]),
        e < s.len() ==> !is_blank_char(s[e]),
    ensures
        lead_len(s) == e,
    decreases e,
{
    if e > 0 {
        let t = s.skip(1);
        assert forall|k: int| 0 <= k < e - 1 implies is_blank_char(#[trigger] t[k]) by {
            assert(t[k] == s[k + 1]);
        }
        if e - 1 < t.len() {
            assert(t[e - 1] == s[e]);
        }
        lemma_lead_len(t, e - 1);
    }
}

fn normalize_leading_tabs(line: &Vec<char>, indent_width: usize) -> (r: Vec<char>)
    ensures
        r@ == normalize_indent(line@, indent_width as nat),
{
    let mut end: usize = 0;
    let mut saw_tab = false;
    while end < line.len() && (line[end] == ' ' || line[end] == '\t')
        invariant
            end <= line.len(),
            forall|k: int| 0 <= k < end ==> is_blank_char(#[trigger] line@[k]),
            saw_tab == line@.take(end as int).contains('\t'),
        decreases line.len() - end,
    {
        let ghost before = line@.take(end as int);
        assert(line@.take(end + 1) =~= before.push(line@[end as int]));
        if line[end] == '\t' {
            saw_tab = true;
            assert(line@.take(end + 1)[end as int] == '\t');
        } else {
            proof {
                let after = line@.take(end + 1);
                if after.contains('\t') {
                    let k = choose|k: int| 0 <= k < after.len() && after[k] == '\t';
                    assert(before[k] == '\t');
                }
                if before.contains('\t') {
                    let k = choose|k: int| 0 <= k < before.len() && before[k] == '\t';
                    assert(after[k] == '\t');
                }
            }
        }
        end += 1;
    }
    proof {
        lemma_lead_len(line@, end as int);
    }
    if end == 0 || !saw_tab {
        let mut same: Vec<char> = Vec::new();
        let mut i: usize = 0;
        while i < line.len()
            invariant
                i <= line.len(),
                same@ == line@.take(i as int),
            decreases line.len() - i,
        {
            same.push(line[i]);
            assert(line@.take(i + 1) =~= line@.take(i as int).push(line@[i as int]));
            i += 1;
        }
        assert(line@.take(line.len() as int) =~= line@);
        return same;
    }
    let mut out: Vec<char> = Vec::new();
    let mut j: usize = 0;
    assert(line@.take(0) =~= Seq::<char>::empty());
    while j < end
        invariant
            j <= end <= line.len(),
            out@ == expand_tabs(line@.take(j as int), indent_width as nat),
        decreases end - j,
    {
        let ghost base = out@;
        assert(line@.take(j + 1).drop_last() =~= line@.take(j as int));
        if line[j] == '\t' {
            let mut k: usize = 0;
            while k < indent_width
                invariant
                    k <= indent_width,
                    out@ == base + spaces(k as nat),
                decreases indent_width - k,
            {
                out.push(' ');
                assert(base + spaces((k + 1) as nat) =~= (base + spaces(k as nat)).push(' '));
                k += 1;
            }
        } else {
            out.push(line[j]);
            assert(out@ =~= base + seq![line@[j as int]]);
        }
        j += 1;
    }
    let mut i: usize = end;
    let ghost head = out@;
    while i < line.len()
        invariant
            end <= i <= line.len(),
            out@ == head + line@.subrange(end as int, i as int),
        decreases line.len() - i,
    {
        out.push(line[i]);
        assert(line@.subrange(end as int, i + 1) =~= line@.subrange(end as int, i as int).push(line@[i as int]));
        i += 1;
    }
    assert(line@.subrange(end as int, line.len() as int) =~= line@.skip(end as int));
    out
}

} // verus!

verus! {

// ---------------------------------------------------------------------
// Public interface
// ---------------------------------------------------------------------

/// Formatting options for the whitespace-stable formatter.
#[derive(Debug, Clone, Copy, PartialEq, Eq, Structural)]
pub struct FormatOptions {
    /// Maximum allowed run of consecutive blank lines.
    pub max_consecutive_blank_lines: usize,
    /// Number of spaces to expand a leading tab into.
    pub indent_width: usize,
}

impl Default for FormatOptions {
    fn default() -> (r: Self)
        ensures
            r.max_consecutive_blank_lines == 1,
            r.indent_width == 4,
    {
        FormatOptions { max_consecutive_blank_lines: 1, indent_width: 4 }
    }
}

/// Result of formatting a source string.
#[derive(Debug, Clone, PartialEq, Eq)]
pub struct FormatOutcome {
    pub output: String,
    pub changed: bool,
}

/// Format source with default options (at most one blank line in a row,
/// tabs in leading indentation become four spaces).
pub fn format_source(source: &str) -> (r: FormatOutcome)
    ensures
        r.output@ == format_spec(source@, 1, 4),
        r.changed == (r.output@ != source@),
{
    format_source_with_options(source, FormatOptions::default())
}

/// Format source with explicit options.
pub fn format_source_with_options(source: &str, options: FormatOptions) -> (r: FormatOutcome)
    ensures
        r.output@ == format_spec(
            source@,
            options.max_consecutive_blank_lines as nat,
            options.indent_width as nat,
        ),
        r.changed == (r.output@ != source@),
{
    let max = options.max_consecutive_blank_lines;
    let width = options.indent_width;
    let chars = chars_of(source);
    let normalized = normalize_newlines_exec(&chars);
    let lines = split_lines_exec(&normalized);
    let ghost cleaned = lines_view(lines@).map_values(|l: Seq<char>| clean_line(l, width as nat));
    let mut output_lines: Vec<Vec<char>> = Vec::new();
    let mut blank_run: usize = 0;
    let mut i: usize = 0;
    assert(cleaned.take(0) =~= Seq::<Seq<char>>::empty());
    assert(lines_view(output_lines@) =~= Seq::<Seq<char>>::empty());
    while i < lines.len()
        invariant
            i <= lines.len(),
            cleaned == lines_view(lines@).map_values(|l: Seq<char>| clean_line(l, width as nat)),
            blank_run <= i,
            (lines_view(output_lines@), blank_run as nat) == collapse(cleaned.take(i as int), max as nat),
        decreases lines.len() - i,
    {
        let trimmed = trim_trailing_whitespace(&lines[i]);
        let line = normalize_leading_tabs(&trimmed, width);
        assert(cleaned.take(i + 1).drop_last() =~= cleaned.take(i as int));
        assert(cleaned.take(i + 1).last() == line@);
        let ghost before = lines_view(output_lines@);
        if line.len() == 0 {
            blank_run += 1;
            if output_lines.len() > 0 && blank_run <= max {
                output_lines.push(line);
                assert(lines_view(output_lines@) =~= before.push(line@));
            }
        } else {
            blank_run = 0;
            output_lines.push(line);
            assert(lines_view(output_lines@) =~= before.push(line@));
        }
        i += 1;
    }
    assert(cleaned.take(lines.len() as int) =~= cleaned);
    assert(lines_view(lines@) == split_lines(normalize_newlines(source@)));
    while output_lines.len() > 0 && output_lines[output_lines.len() - 1].len() == 0
        invariant
            strip_trailing_blank_lines(lines_view(output_lines@)) == formatted_lines(
                source@,
                max as nat,
                width as nat,
            ),
        decreases output_lines.len(),
    {
        let ghost before = lines_view(output_lines@);
        output_lines.pop();
        assert(lines_view(output_lines@) =~= before.drop_last());
    }
    let mut output = String::new();
    let mut k: usize = 0;
    assert(lines_view(output_lines@) == formatted_lines(source@, max as nat, width as nat));
    assert(lines_view(output_lines@).take(0) =~= Seq::<Seq<char>>::empty());
    while k < output_lines.len()
        invariant
            k <= output_lines.len(),
            output@ == join_lines(lines_view(output_lines@).take(k as int)),
        decreases output_lines.len() - k,
    {
        let ghost all = lines_view(output_lines@);
        assert(all.take(k + 1).drop_last() =~= all.take(k as int));
        if k > 0 {
            crate::text::push_char(&mut output, '\n');
        } else {
            assert(output@ =~= Seq::<char>::empty());
        }
        push_chars(&mut output, &output_lines[k]);
        k += 1;
    }
    assert(lines_view(output_lines@).take(output_lines.len() as int) =~= lines_view(output_lines@));
    crate::text::push_char(&mut output, '\n');
    let original: String = source.to_owned();
    let changed = !(output == original);
    FormatOutcome { output, changed }
}

} // verus!

verus! {

// ---------------------------------------------------------------------
// Properties of the model
// ---------------------------------------------------------------------

proof fn lemma_normalize_newlines_no_cr(s: Seq<char>)
    ensures
        !normalize_newlines(s).contains('\r'),
    decreases s.len(),
{
    if s.len() > 0 {
        let r = normalize_newlines(s);
        if s[0] == '\r' && s.len() > 1 && s[1] == '\n' {
            lemma_normalize_newlines_no_cr(s.skip(2));
            let t = normalize_newlines(s.skip(2));
            if r.contains('\r') {
                let k = choose|k: int| 0 <= k < r.len() && r[k] == '\r';
                assert(r[k] == (seq!['\n'] + t)[k]);
                assert(t[k - 1] == '\r');
            }
        } else {
            lemma_normalize_newlines_no_cr(s.skip(1));
            let t = normalize_newlines(s.skip(1));
            let c = if s[0] == '\r' { '\n' } else { s[0] };
            assert(r == seq![c] + t);
            if r.contains('\r') {
                let k = choose|k: int| 0 <= k < r.len() && r[k] == '\r';
                assert(r[k] == (seq![c] + t)[k]);
                assert(t[k - 1] == '\r');
            }
        }
    }
}

proof fn lemma_normalize_newlines_identity(s: Seq<char>)
    requires
        !s.contains('\r'),
    ensures
        normalize_newlines(s) == s,
    decreases s.len(),
{
    if s.len() > 0 {
        assert(s[0] != '\r');
        let t = s.skip(1);
        assert(!t.contains('\r')) by {
            if t.contains('\r') {
                let k = choose|k: int| 0 <= k < t.len() && t[k] == '\r';
                assert(s[k + 1] == '\r');
            }
        }
        lemma_normalize_newlines_identity(t);
        assert(seq![s[0]] + t =~= s);
    }
}

/// No piece of `split_lines(s)` holds `\n`, nor any character absent from `s`.
proof fn lemma_split_lines_pieces(s: Seq<char>, c: char)
    ensures
        split_lines(s).len() >= 1,
        forall|i: int| 0 <= i < split_lines(s).len() ==> !(#[trigger] split_lines(s)[i]).contains('\n'),
        !s.contains(c) ==> forall|i: int|
            0 <= i < split_lines(s).len() ==> !(#[trigger] split_lines(s)[i]).contains(c),
    decreases s.len(),
{
    if s.len() > 0 {
        let d = s.drop_last();
        lemma_split_lines_pieces(d, c);
        let prev = split_lines(d);
        if !s.contains(c) {
            assert(!d.contains(c)) by {
                if d.contains(c) {
                    let k = choose|k: int| 0 <= k < d.len() && d[k] == c;
                    assert(s[k] == c);
                }
            }
        }
        if s.last() != '\n' {
            let n = prev.last().push(s.last());
            assert forall|i: int| 0 <= i < split_lines(s).len() implies !(
            #[trigger] split_lines(s)[i]).contains('\n') by {
                if i == prev.len() - 1 {
                    if n.contains('\n') {
                        let k = choose|k: int| 0 <= k < n.len() && n[k] == '\n';
                        if k < n.len() - 1 {
                            assert(prev.last()[k] == '\n');
                        }
                    }
                }
            }
            if !s.contains(c) {
                assert forall|i: int| 0 <= i < split_lines(s).len() implies !(
                #[trigger] split_lines(s)[i]).contains(c) by {
                    if i == prev.len() - 1 {
                        if n.contains(c) {
                            let k = choose|k: int| 0 <= k < n.len() && n[k] == c;
                            if k < n.len() - 1 {
                                assert(prev.last()[k] == c);
                            } else {
                                assert(s[s.len() - 1] == c);
                            }
                        }
                    }
                }
            }
        }
    }
}

proof fn lemma_split_append_no_newline(a: Seq<char>, b: Seq<char>)
    requires
        !b.contains('\n'),
    ensures
        split_lines(a).len() >= 1,
        split_lines(a + b) == split_lines(a).update(
            split_lines(a).len() - 1,
            split_lines(a).last() + b,
        ),
    decreases b.len(),
{
    lemma_split_lines_nonempty(a);
    if b.len() == 0 {
        assert(a + b =~= a);
        assert(split_lines(a).last() + b =~= split_lines(a).last());
        assert(split_lines(a).update(split_lines(a).len() - 1, split_lines(a).last())
            =~= split_lines(a));
    } else {
        let bd = b.drop_last();
        assert(!bd.contains('\n')) by {
            if bd.contains('\n') {
                let k = choose|k: int| 0 <= k < bd.len() && bd[k] == '\n';
                assert(b[k] == '\n');
            }
        }
        assert(b.last() != '\n') by {
            assert(b[b.len() - 1] == b.last());
        }
        lemma_split_append_no_newline(a, bd);
        assert((a + b).drop_last() =~= a + bd);
        assert((a + b).last() == b.last());
        let p = split_lines(a);
        assert(split_lines(a + b) =~= p.update(p.len() - 1, p.last() + b)) by {
            assert((p.last() + bd).push(b.last()) =~= p.last() + b);
        }
    }
}

pub open spec fn no_line_contains(lines: Seq<Seq<char>>, c: char) -> bool {
    forall|i: int| 0 <= i < lines.len() ==> !(#[trigger] lines[i]).contains(c)
}

proof fn lemma_split_join(lines: Seq<Seq<char>>)
    requires
        lines.len() >= 1,
        no_line_contains(lines, '\n'),
    ensures
        split_lines(join_lines(lines)) == lines,
    decreases lines.len(),
{
    if lines.len() == 1 {
        lemma_split_append_no_newline(seq![], lines[0]);
        assert(Seq::<char>::empty() + lines[0] =~= lines[0]);
        assert(split_lines(Seq::<char>::empty()) =~= seq![Seq::<char>::empty()]);
        assert(seq![Seq::<char>::empty()].update(0, Seq::<char>::empty() + lines[0]) =~= lines);
    } else {
        let d = lines.drop_last();
        assert(no_line_contains(d, '\n')) by {
            assert forall|i: int| 0 <= i < d.len() implies !(#[trigger] d[i]).contains('\n') by {
                assert(d[i] == lines[i]);
            }
        }
        lemma_split_join(d);
        let a = join_lines(d) + seq!['\n'];
        assert(a.drop_last() =~= join_lines(d));
        assert(split_lines(a) =~= d.push(seq![]));
        assert(!lines.last().contains('\n')) by {
            assert(lines[lines.len() - 1] == lines.last());
        }
        lemma_split_append_no_newline(a, lines.last());
        assert(Seq::<char>::empty() + lines.last() =~= lines.last());
        assert(d.push(seq![]).update(d.len() as int, Seq::<char>::empty() + lines.last()) =~= lines);
    }
}

proof fn lemma_join_no_char(lines: Seq<Seq<char>>, c: char)
    requires
        c != '\n',
        no_line_contains(lines, c),
    ensures
        !join_lines(lines).contains(c),
    decreases lines.len(),
{
    if lines.len() == 1 {
        assert(lines[0] == join_lines(lines));
    } else if lines.len() > 1 {
        let d = lines.drop_last();
        assert(no_line_contains(d, c)) by {
            assert forall|i: int| 0 <= i < d.len() implies !(#[trigger] d[i]).contains(c) by {
                assert(d[i] == lines[i]);
            }
        }
        lemma_join_no_char(d, c);
        let j = join_lines(lines);
        let jd = join_lines(d);
        let l = lines.last();
        assert(!l.contains(c)) by {
            assert(lines[lines.len() - 1] == l);
        }
        if j.contains(c) {
            let k = choose|k: int| 0 <= k < j.len() && j[k] == c;
            assert(j == jd + seq!['\n'] + l);
            if k < jd.len() {
                assert(jd[k] == c);
            } else if k > jd.len() {
                assert(l[k - jd.len() - 1] == c);
            }
        }
    }
}

} // verus!

verus! {

proof fn lemma_trim_prefix(line: Seq<char>)
    ensures
        trim_trailing(line).len() <= line.len(),
        trim_trailing(line) == line.take(trim_trailing(line).len() as int),
        trim_trailing(line).len() == 0 || !is_blank_char(trim_trailing(line).last()),
    decreases line.len(),
{
    if line.len() > 0 && is_blank_char(line.last()) {
        lemma_trim_prefix(line.drop_last());
        let t = trim_trailing(line.drop_last());
        assert(line.drop_last().take(t.len() as int) =~= line.take(t.len() as int));
    } else {
        assert(line.take(line.len() as int) =~= line);
    }
}

proof fn lemma_trim_identity(line: Seq<char>)
    requires
        line.len() == 0 || !is_blank_char(line.last()),
    ensures
        trim_trailing(line) == line,
{
}

proof fn lemma_lead_len_props(s: Seq<char>)
    ensures
        lead_len(s) <= s.len(),
        forall|k: int| 0 <= k < lead_len(s) ==> is_blank_char(#[trigger] s[k]),
        lead_len(s) < s.len() ==> !is_blank_char(s[lead_len(s) as int]),
    decreases s.len(),
{
    if s.len() > 0 && is_blank_char(s[0]) {
        let t = s.skip(1);
        lemma_lead_len_props(t);
        assert forall|k: int| 0 <= k < lead_len(s) implies is_blank_char(#[trigger] s[k]) by {
            if k > 0 {
                assert(s[k] == t[k - 1]);
            }
        }
        if lead_len(s) < s.len() {
            assert(s[lead_len(s) as int] == t[lead_len(t) as int]);
        }
    }
}

proof fn lemma_expand_spaces(s: Seq<char>, width: nat)
    requires
        forall|k: int| 0 <= k < s.len() ==> is_blank_char(#[trigger] s[k]),
    ensures
        forall|k: int| 0 <= k < expand_tabs(s, width).len() ==> #[trigger] expand_tabs(s, width)[k] == ' ',
    decreases s.len(),
{
    if s.len() > 0 {
        let d = s.drop_last();
        assert forall|k: int| 0 <= k < d.len() implies is_blank_char(#[trigger] d[k]) by {
            assert(d[k] == s[k]);
        }
        lemma_expand_spaces(d, width);
        assert(is_blank_char(s[s.len() - 1]));
        let a = expand_tabs(d, width);
        let piece = if s.last() == '\t' { spaces(width) } else { seq![s.last()] };
        assert forall|k: int| 0 <= k < piece.len() implies #[trigger] piece[k] == ' ' by {
            assert(s.last() == s[s.len() - 1]);
        }
        assert forall|k: int| 0 <= k < expand_tabs(s, width).len() implies #[trigger] expand_tabs(s, width)[k] == ' ' by {
            assert(expand_tabs(s, width) == a + piece);
            if k >= a.len() {
                assert((a + piece)[k] == piece[k - a.len()]);
            } else {
                assert((a + piece)[k] == a[k]);
            }
        }
    }
}

/// How many times `c` occurs in `s`.
pub open spec fn count_char(s: Seq<char>, c: char) -> nat
    decreases s.len(),
{
    if s.len() == 0 {
        0
    } else {
        count_char(s.drop_last(), c) + (if s.last() == c { 1nat } else { 0nat })
    }
}

/// Tab expansion works character by character: expanding a concatenation
/// expands each part, a tab alone becomes `width` spaces, and any other
/// character alone stays as it is.
pub proof fn lemma_expand_tabs_per_char(s: Seq<char>, t: Seq<char>, c: char, width: nat)
    ensures
        expand_tabs(s + t, width) == expand_tabs(s, width) + expand_tabs(t, width),
        expand_tabs(seq!['\t'], width) == spaces(width),
        c != '\t' ==> expand_tabs(seq![c], width) == seq![c],
    decreases t.len(),
{
    let tab = seq!['\t'];
    let one = seq![c];
    assert(tab.drop_last() =~= Seq::<char>::empty());
    assert(one.drop_last() =~= Seq::<char>::empty());
    assert(tab.last() == '\t' && one.last() == c);
    assert(expand_tabs(Seq::<char>::empty(), width) == Seq::<char>::empty());
    assert(expand_tabs(tab, width) == expand_tabs(tab.drop_last(), width) + spaces(width));
    assert(Seq::<char>::empty() + spaces(width) =~= spaces(width));
    if c != '\t' {
        assert(expand_tabs(one, width) == expand_tabs(one.drop_last(), width) + seq![c]);
        assert(Seq::<char>::empty() + seq![c] =~= seq![c]);
    }
    if t.len() == 0 {
        assert(s + t =~= s);
        assert(expand_tabs(s, width) + Seq::<char>::empty() =~= expand_tabs(s, width));
    } else {
        lemma_expand_tabs_per_char(s, t.drop_last(), c, width);
        assert((s + t).drop_last() =~= s + t.drop_last());
        assert((s + t).last() == t.last());
        let piece = if t.last() == '\t' { spaces(width) } else { seq![t.last()] };
        assert(expand_tabs(s + t, width) == expand_tabs(s + t.drop_last(), width) + piece);
        assert(expand_tabs(t, width) == expand_tabs(t.drop_last(), width) + piece);
        assert(expand_tabs(s, width) + expand_tabs(t.drop_last(), width) + piece =~= expand_tabs(
            s,
            width,
        ) + (expand_tabs(t.drop_last(), width) + piece));
    }
}

/// Indentation made of spaces and tabs expands to spaces only: one for each
/// space and `width` for each tab.
pub proof fn lemma_expand_tabs_counts(s: Seq<char>, width: nat)
    requires
        forall|k: int| 0 <= k < s.len() ==> is_blank_char(#[trigger] s[k]),
    ensures
        expand_tabs(s, width) == spaces(count_char(s, ' ') + width * count_char(s, '\t')),
    decreases s.len(),
{
    if s.len() == 0 {
        assert(width * 0 == 0) by (nonlinear_arith);
        assert(spaces(0) =~= Seq::<char>::empty());
    } else {
        let d = s.drop_last();
        assert forall|k: int| 0 <= k < d.len() implies is_blank_char(#[trigger] d[k]) by {
            assert(d[k] == s[k]);
        }
        lemma_expand_tabs_counts(d, width);
        let sp = count_char(d, ' ');
        let tb = count_char(d, '\t');
        assert(is_blank_char(s[s.len() - 1]));
        assert(s.last() == s[s.len() - 1]);
        assert(count_char(s, ' ') == sp + (if s.last() == ' ' { 1nat } else { 0nat }));
        assert(count_char(s, '\t') == tb + (if s.last() == '\t' { 1nat } else { 0nat }));
        if s.last() == '\t' {
            assert(expand_tabs(s, width) == expand_tabs(d, width) + spaces(width));
            assert(width * (tb + 1) == width * tb + width) by (nonlinear_arith);
            assert(spaces(sp + width * tb) + spaces(width) =~= spaces(sp + width * (tb + 1)));
        } else {
            assert(s.last() == ' ');
            assert(expand_tabs(s, width) == expand_tabs(d, width) + seq![' ']);
            assert(spaces(sp + width * tb) + seq![' '] =~= spaces((sp + 1) + width * tb));
        }
    }
}

/// A line whose leading indentation holds a tab keeps its content and gets
/// as indentation one space for each space and `width` spaces for each tab
/// of the original indentation; a line whose indentation holds no tab is
/// left as it is.
pub proof fn lemma_normalize_indent_widths(line: Seq<char>, width: nat)
    ensures
        ({
            let e = lead_len(line) as int;
            let lead = line.take(e);
            &&& lead.contains('\t') ==> normalize_indent(line, width) == spaces(
                count_char(lead, ' ') + width * count_char(lead, '\t'),
            ) + line.skip(e)
            &&& !lead.contains('\t') ==> normalize_indent(line, width) == line
        }),
{
    let e = lead_len(line) as int;
    lemma_lead_len_props(line);
    let lead = line.take(e);
    assert forall|k: int| 0 <= k < lead.len() implies is_blank_char(#[trigger] lead[k]) by {
        assert(lead[k] == line[k]);
    }
    lemma_expand_tabs_counts(lead, width);
}

proof fn lemma_clean_idempotent(line: Seq<char>, width: nat)
    ensures
        clean_line(clean_line(line, width), width) == clean_line(line, width),
{
    let y = trim_trailing(line);
    lemma_trim_prefix(line);
    lemma_lead_len_props(y);
    let e = lead_len(y) as int;
    let z = normalize_indent(y, width);
    if e == 0 || !y.take(e).contains('\t') {
        lemma_trim_identity(y);
    } else {
        let t = y.take(e);
        assert(e < y.len()) by {
            if e == y.len() {
                assert(is_blank_char(y[y.len() - 1]));
            }
        }
        assert forall|k: int| 0 <= k < t.len() implies is_blank_char(#[trigger] t[k]) by {
            assert(t[k] == y[k]);
        }
        lemma_expand_spaces(t, width);
        let x = expand_tabs(t, width);
        let rest = y.skip(e);
        assert(z == x + rest);
        assert(z.last() == y.last()) by {
            assert(rest.last() == y.last());
        }
        lemma_trim_identity(z);
        let n = x.len() as int;
        assert forall|k: int| 0 <= k < n implies is_blank_char(#[trigger] z[k]) by {
            assert(z[k] == x[k]);
        }
        assert(z[n] == y[e]);
        lemma_lead_len(z, n);
        assert(!z.take(n).contains('\t')) by {
            if z.take(n).contains('\t') {
                let k = choose|k: int| 0 <= k < z.take(n).len() && z.take(n)[k] == '\t';
                assert(z[k] == x[k]);
            }
        }
    }
}

proof fn lemma_clean_no_char(line: Seq<char>, width: nat, c: char)
    requires
        c != ' ',
        !line.contains(c),
    ensures
        !clean_line(line, width).contains(c),
{
    let y = trim_trailing(line);
    lemma_trim_prefix(line);
    assert(!y.contains(c)) by {
        if y.contains(c) {
            let k = choose|k: int| 0 <= k < y.len() && y[k] == c;
            assert(line[k] == c);
        }
    }
    lemma_lead_len_props(y);
    let e = lead_len(y) as int;
    if !(e == 0 || !y.take(e).contains('\t')) {
        let t = y.take(e);
        assert forall|k: int| 0 <= k < t.len() implies is_blank_char(#[trigger] t[k]) by {
            assert(t[k] == y[k]);
        }
        lemma_expand_spaces(t, width);
        let x = expand_tabs(t, width);
        let z = x + y.skip(e);
        if z.contains(c) {
            let k = choose|k: int| 0 <= k < z.len() && z[k] == c;
            if k < x.len() {
                assert(z[k] == x[k]);
            } else {
                assert(y[k - x.len() + e] == c);
            }
        }
    }
}

} // verus!

verus! {

/// Number of blank lines at the end of `lines`.
pub open spec fn trailing_blank_count(lines: Seq<Seq<char>>) -> nat
    decreases lines.len(),
{
    if lines.len() > 0 && lines.last().len() == 0 {
        1 + trailing_blank_count(lines.drop_last())
    } else {
        0
    }
}

/// No leading blank line, and no run of more than `max_blank` blank lines.
pub open spec fn blank_runs_bounded(lines: Seq<Seq<char>>, max_blank: nat) -> bool {
    &&& (lines.len() > 0 ==> lines[0].len() > 0)
    &&& forall|j: int|
        0 <= j < lines.len() ==> trailing_blank_count(#[trigger] lines.take(j + 1)) <= max_blank
}

pub open spec fn all_lines(lines: Seq<Seq<char>>, p: spec_fn(Seq<char>) -> bool) -> bool {
    forall|i: int| 0 <= i < lines.len() ==> p(#[trigger] lines[i])
}

proof fn lemma_collapse_shape(lines: Seq<Seq<char>>, max_blank: nat, p: spec_fn(Seq<char>) -> bool)
    ensures
        blank_runs_bounded(collapse(lines, max_blank).0, max_blank),
        trailing_blank_count(collapse(lines, max_blank).0) <= collapse(lines, max_blank).1,
        all_lines(lines, p) ==> all_lines(collapse(lines, max_blank).0, p),
    decreases lines.len(),
{
    if lines.len() > 0 {
        let d = lines.drop_last();
        lemma_collapse_shape(d, max_blank, p);
        let (kept, run) = collapse(d, max_blank);
        let line = lines.last();
        if all_lines(lines, p) {
            assert(all_lines(d, p)) by {
                assert forall|i: int| 0 <= i < d.len() implies p(#[trigger] d[i]) by {
                    assert(d[i] == lines[i]);
                }
            }
            assert(p(line)) by {
                assert(lines[lines.len() - 1] == line);
            }
        }
        let pushed = kept.push(line);
        assert(pushed.drop_last() =~= kept);
        assert forall|j: int| 0 <= j < kept.len() implies #[trigger] pushed.take(j + 1) == kept.take(j + 1) by {
            assert(pushed.take(j + 1) =~= kept.take(j + 1));
        }
        assert(pushed.take(pushed.len() as int) =~= pushed);
        if kept.len() > 0 {
            assert(pushed[0] == kept[0]);
        }
        if all_lines(lines, p) {
            assert forall|i: int| 0 <= i < pushed.len() implies p(#[trigger] pushed[i]) by {
                if i < kept.len() {
                    assert(pushed[i] == kept[i]);
                }
            }
        }
    }
}

proof fn lemma_collapse_identity(lines: Seq<Seq<char>>, max_blank: nat)
    requires
        blank_runs_bounded(lines, max_blank),
    ensures
        collapse(lines, max_blank) == (lines, trailing_blank_count(lines)),
    decreases lines.len(),
{
    if lines.len() > 0 {
        let d = lines.drop_last();
        assert(blank_runs_bounded(d, max_blank)) by {
            assert forall|j: int| 0 <= j < d.len() implies trailing_blank_count(#[trigger] d.take(j + 1))
                <= max_blank by {
                assert(d.take(j + 1) =~= lines.take(j + 1));
            }
            if d.len() > 0 {
                assert(d[0] == lines[0]);
            }
        }
        lemma_collapse_identity(d, max_blank);
        assert(lines.take(lines.len() as int) =~= lines);
        assert(d.push(lines.last()) =~= lines);
        if lines.last().len() == 0 {
            assert(lines.len() > 1) by {
                if lines.len() == 1 {
                    assert(lines[0] == lines.last());
                }
            }
        }
    }
}

proof fn lemma_strip_prefix(lines: Seq<Seq<char>>)
    ensures
        strip_trailing_blank_lines(lines).len() <= lines.len(),
        strip_trailing_blank_lines(lines) == lines.take(strip_trailing_blank_lines(lines).len() as int),
        strip_trailing_blank_lines(lines).len() == 0 || strip_trailing_blank_lines(lines).last().len() > 0,
    decreases lines.len(),
{
    if lines.len() > 0 && lines.last().len() == 0 {
        let d = lines.drop_last();
        lemma_strip_prefix(d);
        let n = strip_trailing_blank_lines(d).len() as int;
        assert(d.take(n) =~= lines.take(n));
    } else {
        assert(lines.take(lines.len() as int) =~= lines);
    }
}

proof fn lemma_take_preserves(lines: Seq<Seq<char>>, n: int, max_blank: nat, p: spec_fn(Seq<char>) -> bool)
    requires
        0 <= n <= lines.len(),
    ensures
        blank_runs_bounded(lines, max_blank) ==> blank_runs_bounded(lines.take(n), max_blank),
        all_lines(lines, p) ==> all_lines(lines.take(n), p),
{
    let t = lines.take(n);
    assert forall|j: int| 0 <= j < t.len() implies #[trigger] t.take(j + 1) == lines.take(j + 1) by {
        assert(t.take(j + 1) =~= lines.take(j + 1));
    }
    assert forall|i: int| 0 <= i < t.len() implies #[trigger] t[i] == lines[i] by {}
}

} // verus!

verus! {

pub open spec fn settled_line(line: Seq<char>, width: nat) -> bool {
    &&& clean_line(line, width) == line
    &&& !line.contains('\n')
    &&& !line.contains('\r')
}

/// Shape of the formatted lines: every line is settled (cleaning leaves it
/// unchanged, it holds no line break), no leading or trailing blank line, and
/// no run of more than `max_blank` blank lines.
pub proof fn lemma_formatted_lines_shape(source: Seq<char>, max_blank: nat, width: nat)
    ensures
        blank_runs_bounded(formatted_lines(source, max_blank, width), max_blank),
        formatted_lines(source, max_blank, width).len() == 0
            || formatted_lines(source, max_blank, width).last().len() > 0,
        forall|i: int|
            0 <= i < formatted_lines(source, max_blank, width).len() ==> settled_line(
                #[trigger] formatted_lines(source, max_blank, width)[i],
                width,
            ),
{
    let n = normalize_newlines(source);
    lemma_normalize_newlines_no_cr(n.take(0));
    lemma_normalize_newlines_no_cr(source);
    let pieces = split_lines(n);
    lemma_split_lines_pieces(n, '\r');
    let cleaned = pieces.map_values(|l: Seq<char>| clean_line(l, width));
    let p = |l: Seq<char>| settled_line(l, width);
    assert(all_lines(cleaned, p)) by {
        assert forall|i: int| 0 <= i < cleaned.len() implies p(#[trigger] cleaned[i]) by {
            let piece = pieces[i];
            lemma_clean_idempotent(piece, width);
            lemma_clean_no_char(piece, width, '\n');
            lemma_clean_no_char(piece, width, '\r');
        }
    }
    lemma_collapse_shape(cleaned, max_blank, p);
    let a = collapse(cleaned, max_blank).0;
    lemma_strip_prefix(a);
    let l = strip_trailing_blank_lines(a);
    lemma_take_preserves(a, l.len() as int, max_blank, p);
    assert forall|i: int| 0 <= i < l.len() implies settled_line(#[trigger] l[i], width) by {
        assert(p(l[i]));
    }
}

/// Formatting is idempotent: formatting already formatted text gives the
/// same text back, so the formatter never reports a change on its own output.
pub proof fn lemma_format_idempotent(source: Seq<char>, max_blank: nat, width: nat)
    ensures
        format_spec(format_spec(source, max_blank, width), max_blank, width) == format_spec(
            source,
            max_blank,
            width,
        ),
{
    let l = formatted_lines(source, max_blank, width);
    let out = format_spec(source, max_blank, width);
    lemma_formatted_lines_shape(source, max_blank, width);
    assert(no_line_contains(l, '\r')) by {
        assert forall|i: int| 0 <= i < l.len() implies !(#[trigger] l[i]).contains('\r') by {
            assert(settled_line(l[i], width));
        }
    }
    assert(no_line_contains(l, '\n')) by {
        assert forall|i: int| 0 <= i < l.len() implies !(#[trigger] l[i]).contains('\n') by {
            assert(settled_line(l[i], width));
        }
    }
    lemma_join_no_char(l, '\r');
    assert(!out.contains('\r')) by {
        let j = join_lines(l);
        if out.contains('\r') {
            let k = choose|k: int| 0 <= k < out.len() && out[k] == '\r';
            if k < j.len() {
                assert(out[k] == j[k]);
            }
        }
    }
    lemma_normalize_newlines_identity(out);
    assert(out.drop_last() =~= join_lines(l));
    let empty = Seq::<char>::empty();
    assert(out.last() == '\n');
    let q = if l.len() >= 1 { l.push(empty) } else { seq![empty, empty] };
    if l.len() >= 1 {
        lemma_split_join(l);
    } else {
        assert(join_lines(l) =~= empty);
        assert(split_lines(empty) =~= seq![empty]);
    }
    assert(split_lines(out) =~= q);
    let cleaned = q.map_values(|x: Seq<char>| clean_line(x, width));
    assert(clean_line(empty, width) =~= empty) by {
        assert(lead_len(empty) == 0);
    }
    assert(cleaned =~= q) by {
        assert forall|i: int| 0 <= i < q.len() implies #[trigger] cleaned[i] == q[i] by {
            if i < l.len() {
                assert(settled_line(l[i], width));
                assert(q[i] == l[i]);
            }
        }
    }
    if l.len() >= 1 {
        lemma_collapse_identity(l, max_blank);
        assert(q.drop_last() =~= l);
        assert(trailing_blank_count(l) == 0);
        let c = collapse(q, max_blank).0;
        assert(c == l || c == l.push(empty));
        assert(l.push(empty).drop_last() =~= l);
        assert(strip_trailing_blank_lines(l) == l);
        assert(strip_trailing_blank_lines(c) == l);
    } else {
        assert(q.drop_last() =~= seq![empty]);
        assert(q.drop_last().drop_last() =~= Seq::<Seq<char>>::empty());
        assert(collapse(Seq::<Seq<char>>::empty(), max_blank) == (Seq::<Seq<char>>::empty(), 0nat));
        assert(q.drop_last().last() == empty);
        assert(q.last() == empty);
        assert(collapse(q.drop_last(), max_blank) == (Seq::<Seq<char>>::empty(), 1nat));
        assert(collapse(q, max_blank) == (Seq::<Seq<char>>::empty(), 2nat));
        assert(l =~= Seq::<Seq<char>>::empty());
    }
    assert(formatted_lines(out, max_blank, width) == l);
}

} // verus!

verus! {

/// The lines of `lines` that are not empty, in order.
pub open spec fn non_blank_lines(lines: Seq<Seq<char>>) -> Seq<Seq<char>>
    decreases lines.len(),
{
    if lines.len() == 0 {
        seq![]
    } else {
        let prev = non_blank_lines(lines.drop_last());
        if lines.last().len() > 0 {
            prev.push(lines.last())
        } else {
            prev
        }
    }
}

proof fn lemma_collapse_keeps_non_blank(lines: Seq<Seq<char>>, max_blank: nat)
    ensures
        non_blank_lines(collapse(lines, max_blank).0) == non_blank_lines(lines),
    decreases lines.len(),
{
    if lines.len() > 0 {
        lemma_collapse_keeps_non_blank(lines.drop_last(), max_blank);
        let (kept, run) = collapse(lines.drop_last(), max_blank);
        let line = lines.last();
        assert(kept.push(line).drop_last() =~= kept);
    }
}

proof fn lemma_strip_keeps_non_blank(lines: Seq<Seq<char>>)
    ensures
        non_blank_lines(strip_trailing_blank_lines(lines)) == non_blank_lines(lines),
    decreases lines.len(),
{
    if lines.len() > 0 && lines.last().len() == 0 {
        lemma_strip_keeps_non_blank(lines.drop_last());
    }
}

/// The formatter keeps every line that has content, in order: its lines
/// that are not blank are exactly those of the source once each is cleaned
/// (trailing blanks dropped, leading tabs expanded). Only blank lines are
/// added or removed.
pub proof fn lemma_format_preserves_content(source: Seq<char>, max_blank: nat, width: nat)
    ensures
        non_blank_lines(formatted_lines(source, max_blank, width)) == non_blank_lines(
            split_lines(normalize_newlines(source)).map_values(|l: Seq<char>| clean_line(l, width)),
        ),
{
    let cleaned = split_lines(normalize_newlines(source)).map_values(|l: Seq<char>| clean_line(l, width));
    lemma_collapse_keeps_non_blank(cleaned, max_blank);
    lemma_strip_keeps_non_blank(collapse(cleaned, max_blank).0);
}

} // verus!
