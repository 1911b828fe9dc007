//! Source location tracking.
//!
//! Every token, AST node and diagnostic carries a [`Span`] that records
//! exactly where in the source code it originated. Offsets are byte offsets
//! into the UTF-8 encoding of the source text.

use vstd::prelude::*;
use vstd::utf8::*;
use vstd::string::StringSliceAdditionalSpecFns;

verus! {

broadcast use vstd::utf8::group_utf8_lib;

/// Unique identifier for a source file within a compilation session.
#[derive(Debug, Clone, Copy, PartialEq, Eq, Hash, Structural)]
pub struct SourceId(pub u32);

/// A contiguous range of bytes in a source file.
#[derive(Debug, Clone, Copy, PartialEq, Eq, Hash, Structural)]
pub struct Span {
    /// Which source file this span belongs to.
    pub source_id: SourceId,
    /// Byte offset of the start of the span (inclusive).
    pub start: u32,
    /// Byte offset of the end of the span (exclusive).
    pub end: u32,
}

/// The identifier reserved for compiler-generated nodes.
pub open spec fn dummy_source_id() -> u32 {
    0xffff_ffff
}

impl Span {
    /// The span covers a well-ordered range.
    pub open spec fn wf(self) -> bool {
        self.start <= self.end
    }

    /// The smallest span covering both `a` and `b` (same source file).
    pub open spec fn merged(a: Span, b: Span) -> Span {
        Span {
            source_id: a.source_id,
            start: if a.start <= b.start { a.start } else { b.start },
            end: if a.end >= b.end { a.end } else { b.end },
        }
    }

    /// Create a new span.
    pub fn new(source_id: SourceId, start: u32, end: u32) -> (r: Span)
        requires
            start <= end,
        ensures
            r == (Span { source_id, start, end }),
    {
        Span { source_id, start, end }
    }

    /// Create a zero-length span at a specific offset (for pointing at a position).
    pub fn point(source_id: SourceId, offset: u32) -> (r: Span)
        ensures
            r == (Span { source_id, start: offset, end: offset }),
    {
        Span { source_id, start: offset, end: offset }
    }

    /// Merge two spans of the same file into one that covers both.
    pub fn merge(self, other: Span) -> (r: Span)
        requires
            self.source_id == other.source_id,
        ensures
            r == Span::merged(self, other),
    {
        Span {
            source_id: self.source_id,
            start: if self.start <= other.start { self.start } else { other.start },
            end: if self.end >= other.end { self.end } else { other.end },
        }
    }

    /// Length of this span in bytes.
    pub fn len(&self) -> (r: u32)
        requires
            self.wf(),
        ensures
            r == self.end - self.start,
    {
        self.end - self.start
    }

    /// Whether the span is empty.
    pub fn is_empty(&self) -> (r: bool)
        ensures
            r == (self.start == self.end),
    {
        self.start == self.end
    }

    /// A dummy span for compiler-generated nodes with no source location.
    pub fn dummy() -> (r: Span)
        ensures
            r == (Span { source_id: SourceId(dummy_source_id() as u32), start: 0, end: 0 }),
    {
        Span { source_id: SourceId(0xffff_ffff), start: 0, end: 0 }
    }

    /// The `start..end` rendering of the span.
    pub fn display_text(&self) -> (r: String)
        ensures
            r@ == crate::text::decimal(self.start as nat) + ".."@ + crate::text::decimal(self.end as nat),
    {
        let mut out = String::new();
        crate::text::push_decimal(&mut out, self.start as u128);
        out.append("..");
        crate::text::push_decimal(&mut out, self.end as u128);
        out
    }

    /// Check if this is a dummy span.
    pub fn is_dummy(&self) -> (r: bool)
        ensures
            r == (self.source_id.0 == dummy_source_id()),
    {
        self.source_id.0 == 0xffff_ffff
    }
}

/// Merging is commutative.
pub proof fn lemma_merge_commutative(a: Span, b: Span)
    requires
        a.source_id == b.source_id,
    ensures
        Span::merged(a, b) == Span::merged(b, a),
{
}

/// Merging is associative.
pub proof fn lemma_merge_associative(a: Span, b: Span, c: Span)
    requires
        a.source_id == b.source_id,
        b.source_id == c.source_id,
    ensures
        Span::merged(Span::merged(a, b), c) == Span::merged(a, Span::merged(b, c)),
{
}

/// The merge of two well-ordered spans is well-ordered, covers both, and is
/// the smallest span that does.
pub proof fn lemma_merge_covers(a: Span, b: Span, c: Span)
    requires
        a.source_id == b.source_id,
        a.wf(),
        b.wf(),
    ensures
        Span::merged(a, b).wf(),
        Span::merged(a, b).start <= a.start,
        Span::merged(a, b).start <= b.start,
        Span::merged(a, b).end >= a.end,
        Span::merged(a, b).end >= b.end,
        c.start <= a.start && c.start <= b.start && c.end >= a.end && c.end >= b.end ==> c.start
            <= Span::merged(a, b).start && Span::merged(a, b).end <= c.end,
{
}

/// Merging a span with itself gives it back.
pub proof fn lemma_merge_idempotent(a: Span)
    ensures
        Span::merged(a, a) == a,
{
}

} // verus!

verus! {

/// Offsets at which lines start within the first `n` bytes of `b`: `0`, and
/// every offset that directly follows a `\n` byte.
pub open spec fn line_starts_upto(b: Seq<u8>, n: int) -> Seq<int>
    decreases n,
{
    if n <= 0 {
        seq![0]
    } else {
        let prev = line_starts_upto(b, n - 1);
        if b[n - 1] == 10u8 {
            prev.push(n)
        } else {
            prev
        }
    }
}

pub open spec fn line_starts_of(b: Seq<u8>) -> Seq<int> {
    line_starts_upto(b, b.len() as int)
}

/// `s` without its trailing bytes equal to `x`.
pub open spec fn strip_trailing_byte(s: Seq<u8>, x: u8) -> Seq<u8>
    decreases s.len(),
{
    if s.len() > 0 && s.last() == x {
        strip_trailing_byte(s.drop_last(), x)
    } else {
        s
    }
}

/// Bytes of line `line` (0-indexed) without its line terminator: trailing
/// `\n` bytes are removed, then trailing `\r` bytes.
pub open spec fn line_text_bytes(b: Seq<u8>, line: int) -> Seq<u8> {
    let ls = line_starts_of(b);
    let start = ls[line];
    let end = if line + 1 < ls.len() { ls[line + 1] } else { b.len() as int };
    strip_trailing_byte(strip_trailing_byte(b.subrange(start, end), 10u8), 13u8)
}

pub open spec fn strictly_increasing(s: Seq<int>) -> bool {
    forall|i: int, j: int| 0 <= i < j < s.len() ==> s[i] < s[j]
}

proof fn lemma_line_starts(b: Seq<u8>, n: int)
    requires
        0 <= n <= b.len(),
    ensures
        line_starts_upto(b, n).len() >= 1,
        line_starts_upto(b, n)[0] == 0,
        strictly_increasing(line_starts_upto(b, n)),
        forall|k: int|
            0 <= k < line_starts_upto(b, n).len() ==> 0 <= #[trigger] line_starts_upto(b, n)[k]
                <= n,
        forall|k: int|
            1 <= k < line_starts_upto(b, n).len() ==> b[#[trigger] line_starts_upto(b, n)[k] - 1]
                == 10u8,
    decreases n,
{
    if n > 0 {
        lemma_line_starts(b, n - 1);
    }
}

/// How many elements of `ls` are at most `x`.
pub open spec fn count_at_most(ls: Seq<int>, x: int) -> nat
    decreases ls.len(),
{
    if ls.len() == 0 {
        0
    } else {
        count_at_most(ls.drop_last(), x) + (if ls.last() <= x { 1nat } else { 0nat })
    }
}

/// The 0-indexed line holding byte offset `offset`, and the column within it.
pub open spec fn line_col_of(b: Seq<u8>, offset: int) -> (int, int) {
    let ls = line_starts_of(b);
    let line = count_at_most(ls, offset) - 1;
    (line, offset - ls[line])
}

proof fn lemma_count_at_most(ls: Seq<int>, x: int, p: int)
    requires
        0 <= p <= ls.len(),
        forall|k: int| 0 <= k < p ==> #[trigger] ls[k] <= x,
        forall|k: int| p <= k < ls.len() ==> #[trigger] ls[k] > x,
    ensures
        count_at_most(ls, x) == p,
    decreases ls.len(),
{
    if ls.len() > 0 {
        let d = ls.drop_last();
        if p == ls.len() {
            lemma_count_at_most(d, x, p - 1);
            assert(ls[ls.len() - 1] <= x);
        } else {
            lemma_count_at_most(d, x, p);
            assert(ls[ls.len() - 1] > x);
        }
    }
}

/// A byte below 0x80 in valid UTF-8 that starts a character is followed by
/// a character boundary.
proof fn lemma_boundary_after_ascii(b: Seq<u8>, i: int)
    requires
        valid_utf8(b),
        0 <= i < b.len(),
        b[i] <= 0x7f,
        is_char_boundary(b, i),
    ensures
        is_char_boundary(b, i + 1),
    decreases b.len(),
{
    let l = length_of_first_scalar(b);
    let pop = pop_first_scalar(b);
    assert(valid_first_scalar(b) && valid_utf8(pop));
    assert(pop.len() == b.len() - l);
    if i == 0 {
        assert(l == 1);
        assert(is_char_boundary(pop, 0));
        assert(is_char_boundary(b, 1));
    } else {
        assert(is_char_boundary(pop, i - l));
        assert(i - l >= 0);
        assert(pop[i - l] == b[i]);
        lemma_boundary_after_ascii(pop, i - l);
        assert(is_char_boundary(b, i + 1));
    }
}

proof fn lemma_ascii_is_boundary(b: Seq<u8>, i: int)
    requires
        valid_utf8(b),
        0 <= i < b.len(),
        b[i] <= 0x7f,
    ensures
        is_char_boundary(b, i),
{
    is_char_boundary_iff_not_is_continuation_byte(b, i);
}

proof fn lemma_line_starts_are_boundaries(b: Seq<u8>)
    requires
        valid_utf8(b),
    ensures
        forall|k: int|
            0 <= k < line_starts_of(b).len() ==> is_char_boundary(b, #[trigger] line_starts_of(b)[k]),
{
    lemma_line_starts(b, b.len() as int);
    is_char_boundary_start_end_of_seq(b);
    let ls = line_starts_of(b);
    assert forall|k: int| 0 <= k < ls.len() implies is_char_boundary(b, #[trigger] ls[k]) by {
        if k > 0 {
            let j = ls[k] - 1;
            lemma_ascii_is_boundary(b, j);
            lemma_boundary_after_ascii(b, j);
        }
    }
}

/// Byte offsets at which the lines of a source text start.
#[derive(Debug, Clone)]
pub struct LineStarts {
    starts: Vec<usize>,
}

impl LineStarts {
    pub closed spec fn view(&self) -> Seq<int> {
        self.starts@.map_values(|x: usize| x as int)
    }

    proof fn lemma_len(&self)
        ensures
            self.view().len() == self.starts@.len(),
            forall|k: int| 0 <= k < self.starts@.len() ==> #[trigger] self.view()[k] == self.starts@[k] as int,
    {
    }
}

/// A loaded source file with its contents cached for diagnostics.
#[derive(Debug, Clone)]
pub struct SourceFile {
    /// Unique ID for this file.
    pub id: SourceId,
    /// File path (as provided by the user).
    pub path: String,
    /// Full source text.
    pub source: String,
    /// Byte offsets of each line start (for line/column lookups).
    pub line_starts: LineStarts,
}

impl SourceFile {
    /// UTF-8 encoding of the source text.
    pub open spec fn bytes(&self) -> Seq<u8> {
        encode_utf8(self.source@)
    }

    /// The line-start table agrees with the source text.
    pub open spec fn wf(&self) -> bool {
        self.line_starts.view() == line_starts_of(self.bytes())
    }

    /// Number of lines.
    pub open spec fn num_lines(&self) -> nat {
        line_starts_of(self.bytes()).len()
    }

    /// Create a new source file and compute line start offsets.
    pub fn new(id: SourceId, path: String, source: String) -> (r: SourceFile)
        ensures
            r.wf(),
            r.id == id,
            r.path@ == path@,
            r.source@ == source@,
    {
        let bytes = source.as_str().as_bytes();
        let ghost b = bytes@;
        assert(b == encode_utf8(source@));
        let mut line_starts: Vec<usize> = Vec::new();
        line_starts.push(0);
        let mut i: usize = 0;
        while i < bytes.len()
            invariant
                i <= bytes.len(),
                b == bytes@,
                line_starts@.len() == line_starts_upto(b, i as int).len(),
                forall|k: int|
                    0 <= k < line_starts@.len() ==> #[trigger] line_starts@[k] as int
                        == line_starts_upto(b, i as int)[k],
            decreases bytes.len() - i,
        {
            if bytes[i] == 10u8 {
                line_starts.push(i + 1);
            }
            i += 1;
        }
        let ghost v = line_starts@.map_values(|x: usize| x as int);
        assert(v =~= line_starts_of(b));
        SourceFile { id, path, source, line_starts: LineStarts { starts: line_starts } }
    }

    /// Total number of lines.
    pub fn line_count(&self) -> (r: usize)
        requires
            self.wf(),
        ensures
            r == self.num_lines(),
    {
        proof {
            self.line_starts.lemma_len();
        }
        self.line_starts.starts.len()
    }
}


impl SourceFile {
    /// Convert a byte offset to a (line, column) pair (both 0-indexed): the
    /// line is the last one starting at or before `offset`, the column the
    /// distance from that line's start.
    pub fn offset_to_line_col(&self, offset: usize) -> (r: (usize, usize))
        requires
            self.wf(),
        ensures
            r.0 < self.num_lines(),
            line_starts_of(self.bytes())[r.0 as int] <= offset,
            r.0 + 1 < self.num_lines() ==> offset < line_starts_of(self.bytes())[r.0 + 1],
            r.1 == offset - line_starts_of(self.bytes())[r.0 as int],
            (r.0 as int, r.1 as int) == line_col_of(self.bytes(), offset as int),
            r.0 < usize::MAX,
    {
        let ghost ls = line_starts_of(self.bytes());
        proof {
            self.line_starts.lemma_len();
            lemma_line_starts(self.bytes(), self.bytes().len() as int);
        }
        let starts = &self.line_starts.starts;
        // Binary search for the number of line starts at or before `offset`.
        let mut lo: usize = 0;
        let mut hi: usize = starts.len();
        while lo < hi
            invariant
                0 <= lo <= hi <= starts@.len(),
                starts@.len() == ls.len(),
                forall|k: int| 0 <= k < starts@.len() ==> #[trigger] starts@[k] as int == ls[k],
                strictly_increasing(ls),
                forall|k: int| 0 <= k < lo ==> #[trigger] ls[k] <= offset,
                forall|k: int| hi <= k < ls.len() ==> #[trigger] ls[k] > offset,
            decreases hi - lo,
        {
            let mid = lo + (hi - lo) / 2;
            if starts[mid] <= offset {
                lo = mid + 1;
            } else {
                hi = mid;
            }
        }
        assert(ls[0] == 0);
        proof {
            lemma_count_at_most(ls, offset as int, lo as int);
        }
        let line = lo - 1;
        let col = offset - starts[line];
        (line, col)
    }

    /// The text of line `line` (0-indexed) without its line terminator.
    pub fn line_text(&self, line: usize) -> (r: &str)
        requires
            self.wf(),
            line < self.num_lines(),
        ensures
            r.spec_bytes() == line_text_bytes(self.bytes(), line as int),
            r.spec_bytes().len() <= usize::MAX,
    {
        let ghost b = self.bytes();
        let ghost ls = line_starts_of(b);
        proof {
            self.line_starts.lemma_len();
            lemma_line_starts(b, b.len() as int);
            lemma_line_starts_are_boundaries(b);
            is_char_boundary_start_end_of_seq(b);
        }
        let text = self.source.as_str();
        let bytes = text.as_bytes();
        assert(bytes@ == b);
        let starts = &self.line_starts.starts;
        assert(starts@.len() == ls.len());
        assert(line < starts.len());
        let start = starts[line];
        let end = if line + 1 < starts.len() { starts[line + 1] } else { bytes.len() };
        assert(start as int == ls[line as int]);
        assert(line + 1 < ls.len() ==> end as int == ls[line + 1]);
        assert(ls[line as int] <= b.len());
        assert(start <= end);
        let ghost seg = b.subrange(start as int, end as int);
        // Drop trailing `\n` bytes, then trailing `\r` bytes.
        let mut e: usize = end;
        assert(b.subrange(start as int, e as int) =~= seg);
        while e > start && bytes[e - 1] == 10u8
            invariant
                start <= e <= end <= b.len(),
                bytes@ == b,
                valid_utf8(b),
                is_char_boundary(b, e as int),
                strip_trailing_byte(seg, 10u8) == strip_trailing_byte(b.subrange(start as int, e as int), 10u8),
            decreases e,
        {
            assert(b.subrange(start as int, e as int).drop_last() =~= b.subrange(start as int, e - 1));
            proof {
                lemma_ascii_is_boundary(b, e - 1);
            }
            e -= 1;
        }
        let ghost mid = b.subrange(start as int, e as int);
        assert(strip_trailing_byte(seg, 10u8) == mid);
        while e > start && bytes[e - 1] == 13u8
            invariant
                start <= e <= end <= b.len(),
                bytes@ == b,
                valid_utf8(b),
                is_char_boundary(b, e as int),
                strip_trailing_byte(mid, 13u8) == strip_trailing_byte(b.subrange(start as int, e as int), 13u8),
            decreases e,
        {
            assert(b.subrange(start as int, e as int).drop_last() =~= b.subrange(start as int, e - 1));
            proof {
                lemma_ascii_is_boundary(b, e - 1);
            }
            e -= 1;
        }
        assert(is_char_boundary(b, start as int)) by {
            assert(ls[line as int] == start as int);
        }
        let (head, _) = text.split_at(e);
        let ghost hb = head.spec_bytes();
        assert(hb =~= b.subrange(0, e as int));
        assert(is_char_boundary(hb, start as int)) by {
            is_char_boundary_start_end_of_seq(hb);
            if (start as int) < (e as int) {
                is_char_boundary_iff_not_is_continuation_byte(b, start as int);
                is_char_boundary_iff_not_is_continuation_byte(hb, start as int);
            }
        }
        let (_, piece) = head.split_at(start);
        assert(piece.spec_bytes() =~= b.subrange(start as int, e as int));
        piece
    }
}

} // verus!

verus! {

/// The lines of `b`, each without its terminator, in order.
pub open spec fn lines_of(b: Seq<u8>) -> Seq<Seq<u8>> {
    Seq::new(line_starts_of(b).len(), |i: int| line_text_bytes(b, i))
}

/// `lines` joined with a `\n` byte between neighbours.
pub open spec fn join_lines(lines: Seq<Seq<u8>>) -> Seq<u8>
    decreases lines.len(),
{
    if lines.len() == 0 {
        seq![]
    } else if lines.len() == 1 {
        lines[0]
    } else {
        join_lines(lines.drop_last()) + seq![10u8] + lines.last()
    }
}

/// Every `\n` byte among the first `m` bytes is followed by a line start.
proof fn lemma_newline_starts_line(b: Seq<u8>, m: int)
    requires
        0 <= m <= b.len(),
    ensures
        forall|p: int|
            0 <= p < m && #[trigger] b[p] == 10u8 ==> line_starts_upto(b, m).contains(p + 1),
    decreases m,
{
    if m > 0 {
        lemma_newline_starts_line(b, m - 1);
        let prev = line_starts_upto(b, m - 1);
        let cur = line_starts_upto(b, m);
        assert forall|p: int| 0 <= p < m && #[trigger] b[p] == 10u8 implies cur.contains(p + 1) by {
            if p < m - 1 {
                let k = choose|k: int| 0 <= k < prev.len() && prev[k] == p + 1;
                assert(cur[k] == p + 1);
            } else {
                assert(cur[cur.len() - 1] == m);
            }
        }
    }
}

/// `s` without trailing `x` bytes is `s` itself when its last byte is not `x`.
proof fn lemma_strip_nothing(s: Seq<u8>, x: u8)
    requires
        s.len() == 0 || s.last() != x,
    ensures
        strip_trailing_byte(s, x) == s,
{
}

/// A byte sequence that holds no `x` loses exactly one trailing `x` added to it.
proof fn lemma_strip_one(t: Seq<u8>, x: u8)
    requires
        forall|j: int| 0 <= j < t.len() ==> t[j] != x,
    ensures
        strip_trailing_byte(t.push(x), x) == t,
{
    assert(t.push(x).drop_last() =~= t);
    if t.len() > 0 {
        assert(t.last() == t[t.len() - 1]);
    }
    lemma_strip_nothing(t, x);
}

/// The scalar encodings of UTF-8 hold the byte 13 only for `\r` itself.
proof fn lemma_encode_scalar_no_cr(c: char)
    requires
        c != '\r',
    ensures
        forall|j: int|
            0 <= j < encode_scalar(c as u32).len() ==> #[trigger] encode_scalar(c as u32)[j] != 13u8,
{
    let s = c as u32;
    char_is_scalar(c);
    assert(('\r' as u32) == 13u32);
    if has_width_1_encoding(s) {
        assert(s <= 0x7F ==> (((s & 0x7F) as u8 == 13u8) ==> s == 13u32)) by (bit_vector);
    } else {
        assert(((0xC0u8 | ((s >> 6) & 0x1F) as u8) >= 0x80u8)) by (bit_vector);
        assert(((0xE0u8 | ((s >> 12) & 0x0F) as u8) >= 0x80u8)) by (bit_vector);
        assert(((0xF0u8 | ((s >> 18) & 0x7) as u8) >= 0x80u8)) by (bit_vector);
        assert(((0x80u8 | (s & 0x3F) as u8) >= 0x80u8)) by (bit_vector);
        assert(((0x80u8 | ((s >> 6) & 0x3F) as u8) >= 0x80u8)) by (bit_vector);
        assert(((0x80u8 | ((s >> 12) & 0x3F) as u8) >= 0x80u8)) by (bit_vector);
    }
}

/// Text without `\r` encodes to bytes without 13.
proof fn lemma_encode_no_cr(chars: Seq<char>)
    requires
        forall|i: int| 0 <= i < chars.len() ==> chars[i] != '\r',
    ensures
        forall|j: int| 0 <= j < encode_utf8(chars).len() ==> #[trigger] encode_utf8(chars)[j] != 13u8,
    decreases chars.len(),
{
    if chars.len() > 0 {
        lemma_encode_scalar_no_cr(chars[0]);
        lemma_encode_no_cr(chars.drop_first());
        let head = encode_scalar(chars[0] as u32);
        let tail = encode_utf8(chars.drop_first());
        assert(encode_utf8(chars) == head + tail);
        assert forall|j: int| 0 <= j < encode_utf8(chars).len() implies #[trigger] encode_utf8(
            chars,
        )[j] != 13u8 by {
            if j < head.len() {
                assert(encode_utf8(chars)[j] == head[j]);
            } else {
                assert(encode_utf8(chars)[j] == tail[j - head.len()]);
            }
        }
    }
}

/// Where `b` holds no byte 13, line `i` is the text between its start and
/// the `\n` that ends it, or the end of `b` for the last line; it holds no
/// `\n`.
proof fn lemma_line_shape(b: Seq<u8>, i: int)
    requires
        forall|j: int| 0 <= j < b.len() ==> b[j] != 13u8,
        0 <= i < line_starts_of(b).len(),
    ensures
        i + 1 < line_starts_of(b).len() ==> line_starts_of(b)[i] < line_starts_of(b)[i + 1]
            && b[line_starts_of(b)[i + 1] - 1] == 10u8 && line_text_bytes(b, i) == b.subrange(
            line_starts_of(b)[i],
            line_starts_of(b)[i + 1] - 1,
        ),
        i + 1 == line_starts_of(b).len() ==> line_text_bytes(b, i) == b.subrange(
            line_starts_of(b)[i],
            b.len() as int,
        ),
        forall|j: int|
            0 <= j < line_text_bytes(b, i).len() ==> #[trigger] line_text_bytes(b, i)[j] != 10u8,
{
    let ls = line_starts_of(b);
    let n = ls.len() as int;
    lemma_line_starts(b, b.len() as int);
    lemma_newline_starts_line(b, b.len() as int);
    let start = ls[i];
    let end = if i + 1 < n { ls[i + 1] } else { b.len() as int };
    let stop = if i + 1 < n { end - 1 } else { end };
    assert(0 <= start <= stop <= b.len()) by {
        if i + 1 < n {
            assert(ls[i] < ls[i + 1]);
        }
    }
    let body = b.subrange(start, stop);
    assert forall|j: int| 0 <= j < body.len() implies #[trigger] body[j] != 10u8 by {
        let p = start + j;
        assert(body[j] == b[p]);
        if b[p] == 10u8 {
            assert(ls.contains(p + 1));
            let k = choose|k: int| 0 <= k < ls.len() && ls[k] == p + 1;
            if k <= i {
                if k < i {
                    assert(ls[k] < ls[i]);
                }
            } else if i + 1 < n {
                if k > i + 1 {
                    assert(ls[i + 1] < ls[k]);
                }
            }
        }
    }
    assert forall|j: int| 0 <= j < body.len() implies body[j] != 13u8 by {
        assert(body[j] == b[start + j]);
    }
    if i + 1 < n {
        let seg = b.subrange(start, end);
        assert(seg =~= body.push(10u8));
        lemma_strip_one(body, 10u8);
    } else {
        lemma_strip_nothing(body, 10u8);
    }
    if body.len() > 0 {
        assert(body.last() == body[body.len() - 1]);
    }
    lemma_strip_nothing(body, 13u8);
    assert(line_text_bytes(b, i) == body);
}

/// The first `k + 1` lines of `b` joined by `\n` are the bytes of `b` up to
/// the end of line `k`.
proof fn lemma_join_prefix(b: Seq<u8>, k: int)
    requires
        forall|j: int| 0 <= j < b.len() ==> b[j] != 13u8,
        0 <= k < line_starts_of(b).len(),
    ensures
        join_lines(lines_of(b).take(k + 1)) == b.subrange(
            0,
            if k + 1 < line_starts_of(b).len() {
                line_starts_of(b)[k + 1] - 1
            } else {
                b.len() as int
            },
        ),
    decreases k,
{
    let ls = line_starts_of(b);
    let lines = lines_of(b);
    lemma_line_starts(b, b.len() as int);
    lemma_line_shape(b, k);
    if k == 0 {
        assert(lines.take(1).len() == 1);
        assert(lines.take(1)[0] == line_text_bytes(b, 0));
    } else {
        lemma_join_prefix(b, k - 1);
        lemma_line_shape(b, k - 1);
        assert(lines.take(k + 1).drop_last() =~= lines.take(k));
        assert(lines.take(k + 1).last() == line_text_bytes(b, k));
        let endk = if k + 1 < ls.len() { ls[k + 1] - 1 } else { b.len() as int };
        assert(ls[k] <= endk);
        assert(b.subrange(0, endk) =~= b.subrange(0, ls[k] - 1) + seq![10u8] + b.subrange(
            ls[k],
            endk,
        ));
    }
}

/// For a source text without `\r`, the lines joined by `\n` give back the
/// text, and no line holds a `\n`.
pub proof fn lemma_lines_rejoin(f: SourceFile)
    requires
        forall|i: int| 0 <= i < f.source@.len() ==> f.source@[i] != '\r',
    ensures
        join_lines(lines_of(f.bytes())) == f.bytes(),
        forall|i: int, j: int|
            0 <= i < f.num_lines() && 0 <= j < line_text_bytes(f.bytes(), i).len()
                ==> #[trigger] line_text_bytes(f.bytes(), i)[j] != 10u8,
{
    let b = f.bytes();
    lemma_encode_no_cr(f.source@);
    lemma_line_starts(b, b.len() as int);
    let n = line_starts_of(b).len() as int;
    lemma_join_prefix(b, n - 1);
    assert(lines_of(b).take(n) =~= lines_of(b));
    assert(b.subrange(0, b.len() as int) =~= b);
    assert forall|i: int, j: int|
        0 <= i < f.num_lines() && 0 <= j < line_text_bytes(b, i).len() implies #[trigger] line_text_bytes(
        b,
        i,
    )[j] != 10u8 by {
        lemma_line_shape(b, i);
    }
}

} // verus!
