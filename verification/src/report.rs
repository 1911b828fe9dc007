//! Diagnostic emitter: counts diagnostics by severity and renders them as
//! `rustc`-style text with colored source snippets, line numbers and
//! underlined locations.

use vstd::prelude::*;
use vstd::string::StringSliceAdditionalSpecFns;
use vstd::utf8::*;
use std::collections::HashMap;
use crate::diagnostic::{Diagnostic, DiagnosticLevel, Label};
use crate::span::{line_col_of, line_starts_of, line_text_bytes, SourceFile};
use crate::text::{decimal, push_decimal};
use vstd::string::StrSliceExecFns;

verus! {

broadcast use {vstd::std_specs::hash::group_hash_axioms, vstd::utf8::group_utf8_lib};

// ---------------------------------------------------------------------
// Rendering model
// ---------------------------------------------------------------------

pub open spec fn spaces(n: nat) -> Seq<char> {
    Seq::new(n, |i: int| ' ')
}

pub open spec fn repeat_char(c: char, n: nat) -> Seq<char> {
    Seq::new(n, |i: int| c)
}

pub open spec fn level_prefix(level: DiagnosticLevel) -> Seq<char> {
    match level {
        DiagnosticLevel::Error => "\x1b[1;31merror"@,
        DiagnosticLevel::Warning => "\x1b[1;33mwarning"@,
        DiagnosticLevel::Note => "\x1b[1;36mnote"@,
        DiagnosticLevel::Ice => "\x1b[1;31minternal compiler error"@,
    }
}

pub open spec fn header_text(d: Diagnostic) -> Seq<char> {
    level_prefix(d.level) + (match d.code {
        Some(c) => "["@ + c@ + "]"@,
        None => seq![],
    }) + "\x1b[1;37m: "@ + d.message@ + "\x1b[0m\n"@
}

/// Whether a label is drawn: it is not a dummy span and its file is known.
pub open spec fn label_shown(sources: Map<u32, SourceFile>, label: Label) -> bool {
    label.span.source_id.0 != 0xffff_ffffu32 && sources.contains_key(label.span.source_id.0)
}

/// Parts of the snippet drawn for a label in `file`.
pub open spec fn location_line(file: SourceFile, line: int, col: int) -> Seq<char> {
    " \x1b[1;34m-->\x1b[0m "@ + file.path@ + ":"@ + decimal((line + 1) as nat) + ":"@ + decimal(
        (col + 1) as nat,
    ) + "\n"@
}

pub open spec fn gutter_line(line: int) -> Seq<char> {
    " "@ + spaces(decimal((line + 1) as nat).len()) + " \x1b[1;34m|\x1b[0m\n"@
}

pub open spec fn source_line(line: int, text: Seq<char>) -> Seq<char> {
    " \x1b[1;34m"@ + decimal((line + 1) as nat) + "\x1b[0m \x1b[1;34m|\x1b[0m "@ + text + "\n"@
}

pub open spec fn underline_line(line: int, col: int, text_len: int, label: Label) -> Seq<char> {
    let span_len: int = if label.span.end - label.span.start >= 1 {
        label.span.end - label.span.start
    } else {
        1
    };
    let avail: int = if text_len >= col { text_len - col } else { 0 };
    let underline_len: int = if span_len <= avail { span_len } else { avail };
    let mark = if label.is_primary { '^' } else { '-' };
    let color = if label.is_primary { "\x1b[1;31m"@ } else { "\x1b[1;34m"@ };
    " "@ + spaces(decimal((line + 1) as nat).len()) + " \x1b[1;34m|\x1b[0m "@ + spaces(col as nat)
        + color + repeat_char(mark, underline_len as nat) + " "@ + label.message@ + "\x1b[0m\n"@
}

/// The snippet drawn for one label: location, empty gutter, source line
/// (in bytes: `line_text_bytes`), and the underline under the label's span.
pub open spec fn label_text(sources: Map<u32, SourceFile>, label: Label) -> Seq<char> {
    if !label_shown(sources, label) {
        seq![]
    } else {
        let file = sources[label.span.source_id.0];
        let b = file.bytes();
        let (line, col) = line_col_of(b, label.span.start as int);
        let text_bytes = line_text_bytes(b, line);
        location_line(file, line, col) + gutter_line(line) + source_line(line, decode_utf8(text_bytes))
            + underline_line(line, col, text_bytes.len() as int, label)
    }
}

pub open spec fn labels_text(sources: Map<u32, SourceFile>, labels: Seq<Label>) -> Seq<char>
    decreases labels.len(),
{
    if labels.len() == 0 {
        seq![]
    } else {
        labels_text(sources, labels.drop_last()) + label_text(sources, labels.last())
    }
}

/// The full text rendered for a diagnostic.
pub open spec fn render_text(sources: Map<u32, SourceFile>, d: Diagnostic) -> Seq<char> {
    header_text(d) + labels_text(sources, d.labels@) + (match d.help {
        Some(h) => " \x1b[1;36mhelp\x1b[0m: "@ + h@ + "\n"@,
        None => seq![],
    }) + (match d.note {
        Some(n) => " \x1b[1;36mnote\x1b[0m: "@ + n@ + "\n"@,
        None => seq![],
    }) + "\n"@
}

/// Rendering a label reads the line and column of its start, which panics
/// for a reversed span; every drawn label must be well-ordered.
pub open spec fn labels_drawable(sources: Map<u32, SourceFile>, d: Diagnostic) -> bool {
    forall|i: int|
        0 <= i < d.labels@.len() && label_shown(sources, #[trigger] d.labels@[i]) ==> d.labels@[i].span.wf()
}

pub open spec fn is_error_level(level: DiagnosticLevel) -> bool {
    level == DiagnosticLevel::Error || level == DiagnosticLevel::Ice
}

/// Number of errors (including internal compiler errors) in `ds`.
pub open spec fn count_errors(ds: Seq<Diagnostic>) -> nat
    decreases ds.len(),
{
    if ds.len() == 0 {
        0
    } else {
        count_errors(ds.drop_last()) + (if is_error_level(ds.last().level) { 1nat } else { 0nat })
    }
}

/// Number of warnings in `ds`.
pub open spec fn count_warnings(ds: Seq<Diagnostic>) -> nat
    decreases ds.len(),
{
    if ds.len() == 0 {
        0
    } else {
        count_warnings(ds.drop_last()) + (if ds.last().level == DiagnosticLevel::Warning {
            1nat
        } else {
            0nat
        })
    }
}

proof fn lemma_counts_bounded(ds: Seq<Diagnostic>)
    ensures
        count_errors(ds) + count_warnings(ds) <= ds.len(),
    decreases ds.len(),
{
    if ds.len() > 0 {
        lemma_counts_bounded(ds.drop_last());
    }
}

} // verus!

verus! {

/// Collects diagnostics and renders them for the user.
pub struct DiagnosticEmitter {
    /// All emitted diagnostics.
    diagnostics: Vec<Diagnostic>,
    /// Source files for rendering snippets, by source id.
    sources: HashMap<u32, SourceFile>,
    /// Number of errors emitted.
    error_count: usize,
    /// Number of warnings emitted.
    warning_count: usize,
}

impl DiagnosticEmitter {
    /// Every diagnostic emitted so far, in order.
    pub closed spec fn emitted(&self) -> Seq<Diagnostic> {
        self.diagnostics@
    }

    /// The registered source files, by source id.
    pub closed spec fn source_map(&self) -> Map<u32, SourceFile> {
        self.sources@
    }

    /// The counters agree with the emitted diagnostics and every registered
    /// file is well-formed and registered under its own id.
    pub closed spec fn wf(&self) -> bool {
        &&& self.error_count == count_errors(self.diagnostics@)
        &&& self.warning_count == count_warnings(self.diagnostics@)
        &&& self.sources_wf()
    }

    closed spec fn sources_wf(&self) -> bool {
        forall|k: u32| #[trigger]
            self.sources@.contains_key(k) ==> self.sources@[k].wf() && self.sources@[k].id.0 == k
    }

    /// Create a new emitter.
    pub fn new() -> (r: DiagnosticEmitter)
        ensures
            r.wf(),
            r.emitted().len() == 0,
            r.source_map() == Map::<u32, SourceFile>::empty(),
    {
        DiagnosticEmitter {
            diagnostics: Vec::new(),
            sources: HashMap::new(),
            error_count: 0,
            warning_count: 0,
        }
    }

    /// Register a source file for diagnostic rendering.
    pub fn add_source(&mut self, file: SourceFile)
        requires
            old(self).wf(),
            file.wf(),
        ensures
            final(self).wf(),
            final(self).emitted() == old(self).emitted(),
            final(self).source_map() == old(self).source_map().insert(file.id.0, file),
    {
        let id = file.id.0;
        self.sources.insert(id, file);
    }

    /// Record a diagnostic and return its rendered text.
    pub fn emit(&mut self, diagnostic: Diagnostic) -> (r: String)
        requires
            old(self).wf(),
            old(self).emitted().len() < usize::MAX,
            labels_drawable(old(self).source_map(), diagnostic),
        ensures
            final(self).wf(),
            final(self).emitted() == old(self).emitted().push(diagnostic),
            final(self).source_map() == old(self).source_map(),
            r@ == render_text(old(self).source_map(), diagnostic),
    {
        proof {
            lemma_counts_bounded(self.diagnostics@);
        }
        let ghost before = self.diagnostics@;
        match diagnostic.level {
            DiagnosticLevel::Error | DiagnosticLevel::Ice => self.error_count += 1,
            DiagnosticLevel::Warning => self.warning_count += 1,
            DiagnosticLevel::Note => {},
        }
        let text = self.render(&diagnostic);
        self.diagnostics.push(diagnostic);
        assert(self.diagnostics@.drop_last() =~= before);
        text
    }

    /// Whether any errors were emitted.
    pub fn has_errors(&self) -> (r: bool)
        requires
            self.wf(),
        ensures
            r == (count_errors(self.emitted()) > 0),
    {
        self.error_count > 0
    }

    /// Get the total error count (internal compiler errors included).
    pub fn error_count(&self) -> (r: usize)
        requires
            self.wf(),
        ensures
            r == count_errors(self.emitted()),
    {
        self.error_count
    }

    /// Get the total warning count.
    pub fn warning_count(&self) -> (r: usize)
        requires
            self.wf(),
        ensures
            r == count_warnings(self.emitted()),
    {
        self.warning_count
    }

    /// Consume the emitter and return all diagnostics.
    pub fn finish(self) -> (r: Vec<Diagnostic>)
        ensures
            r@ == self.emitted(),
    {
        self.diagnostics
    }
}


impl DiagnosticEmitter {
    /// Append the snippet for one label.
    fn render_label(&self, label: &Label, out: &mut String)
        requires
            self.sources_wf(),
            label_shown(self.source_map(), *label) ==> label.span.wf(),
        ensures
            final(out)@ == old(out)@ + label_text(self.source_map(), *label),
    {
        if label.span.is_dummy() {
            assert(old(out)@ + label_text(self.source_map(), *label) =~= old(out)@);
            return;
        }
        let source = match self.sources.get(&label.span.source_id.0) {
            Some(source) => source,
            None => {
                assert(old(out)@ + label_text(self.source_map(), *label) =~= old(out)@);
                return;
            },
        };
        let ghost b = source.bytes();
        let (line, col) = source.offset_to_line_col(label.span.start as usize);
        let line_text = source.line_text(line);
        assert(line_text@ == decode_utf8(line_text_bytes(b, line as int))) by {
            assert(line_text.spec_bytes() == encode_utf8(line_text@));
        }
        let line_num = line + 1;
        let num = crate::text::decimal_string(line_num as u128);
        let gutter_width = num.as_str().unicode_len();
        let diff = label.span.end - label.span.start;
        let span_len: usize = if diff >= 1 { diff as usize } else { 1 };
        let text_len = line_text.len();
        let avail: usize = if text_len >= col { text_len - col } else { 0 };
        let underline_len: usize = if span_len <= avail { span_len } else { avail };
        let mark = if label.is_primary { '^' } else { '-' };
        let color = if label.is_primary { "\x1b[1;31m" } else { "\x1b[1;34m" };
        let ghost start = out@;
        let ghost lc = line_col_of(b, label.span.start as int);
        proof {
            let file = self.source_map()[label.span.source_id.0];
            assert(file == *source);
            assert(lc.0 == line as int && lc.1 == col as int);
            assert(num@ == decimal((lc.0 + 1) as nat));
            assert(gutter_width == num@.len());
            assert(text_len == line_text_bytes(b, lc.0).len());
        }
        let mut loc = String::new();
        loc.append(" \x1b[1;34m-->\x1b[0m ");
        loc.append(source.path.as_str());
        loc.append(":");
        loc.append(num.as_str());
        loc.append(":");
        push_decimal(&mut loc, col as u128 + 1);
        loc.append("\n");
        assert(loc@ =~= location_line(*source, lc.0, lc.1));
        let mut gut = String::new();
        gut.append(" ");
        crate::text::push_repeat(&mut gut, ' ', gutter_width);
        gut.append(" \x1b[1;34m|\x1b[0m\n");
        assert(gut@ =~= gutter_line(lc.0));
        let mut src = String::new();
        src.append(" \x1b[1;34m");
        src.append(num.as_str());
        src.append("\x1b[0m \x1b[1;34m|\x1b[0m ");
        src.append(line_text);
        src.append("\n");
        assert(src@ =~= source_line(lc.0, decode_utf8(line_text_bytes(b, lc.0))));
        let mut und = String::new();
        und.append(" ");
        crate::text::push_repeat(&mut und, ' ', gutter_width);
        und.append(" \x1b[1;34m|\x1b[0m ");
        crate::text::push_repeat(&mut und, ' ', col);
        und.append(color);
        crate::text::push_repeat(&mut und, mark, underline_len);
        und.append(" ");
        und.append(label.message.as_str());
        und.append("\x1b[0m\n");
        assert(und@ =~= underline_line(lc.0, lc.1, text_len as int, *label));
        out.append(loc.as_str());
        out.append(gut.as_str());
        out.append(src.as_str());
        out.append(und.as_str());
        assert(out@ =~= start + label_text(self.source_map(), *label));
    }

    /// The rendered text of a diagnostic.
    fn render(&self, diag: &Diagnostic) -> (r: String)
        requires
            self.sources_wf(),
            labels_drawable(self.source_map(), *diag),
        ensures
            r@ == render_text(self.source_map(), *diag),
    {
        let mut out = String::new();
        let level_str = match diag.level {
            DiagnosticLevel::Error => "\x1b[1;31merror",
            DiagnosticLevel::Warning => "\x1b[1;33mwarning",
            DiagnosticLevel::Note => "\x1b[1;36mnote",
            DiagnosticLevel::Ice => "\x1b[1;31minternal compiler error",
        };
        out.append(level_str);
        match &diag.code {
            Some(c) => {
                out.append("[");
                out.append(c.as_str());
                out.append("]");
            },
            None => {},
        }
        out.append("\x1b[1;37m: ");
        out.append(diag.message.as_str());
        out.append("\x1b[0m\n");
        assert(out@ =~= header_text(*diag));
        let ghost head = out@;
        let mut i: usize = 0;
        while i < diag.labels.len()
            invariant
                self.sources_wf(),
                labels_drawable(self.source_map(), *diag),
                i <= diag.labels@.len(),
                out@ == head + labels_text(self.source_map(), diag.labels@.take(i as int)),
            decreases diag.labels@.len() - i,
        {
            assert(diag.labels@.take(i + 1).drop_last() =~= diag.labels@.take(i as int));
            assert(diag.labels@.take(i + 1).last() == diag.labels@[i as int]);
            self.render_label(&diag.labels[i], &mut out);
            assert(head + labels_text(self.source_map(), diag.labels@.take(i + 1)) =~= (head
                + labels_text(self.source_map(), diag.labels@.take(i as int))) + label_text(
                self.source_map(),
                diag.labels@[i as int],
            ));
            i += 1;
        }
        assert(diag.labels@.take(diag.labels@.len() as int) =~= diag.labels@);
        let ghost mid = out@;
        match &diag.help {
            Some(h) => {
                out.append(" \x1b[1;36mhelp\x1b[0m: ");
                out.append(h.as_str());
                out.append("\n");
            },
            None => {},
        }
        match &diag.note {
            Some(n) => {
                out.append(" \x1b[1;36mnote\x1b[0m: ");
                out.append(n.as_str());
                out.append("\n");
            },
            None => {},
        }
        out.append("\n");
        assert(out@ =~= render_text(self.source_map(), *diag));
        out
    }
}


/// "1 error" or "N errors".
pub open spec fn count_phrase(n: nat, singular: Seq<char>, plural: Seq<char>) -> Seq<char> {
    if n == 1 {
        "1 "@ + singular
    } else {
        decimal(n) + " "@ + plural
    }
}

/// The summary line printed after compilation, when anything was reported.
pub open spec fn summary_text(errors: nat, warnings: nat) -> Option<Seq<char>> {
    if errors > 0 || warnings > 0 {
        Some(
            count_phrase(errors, "error"@, "errors"@) + ", "@ + count_phrase(
                warnings,
                "warning"@,
                "warnings"@,
            ) + " emitted"@,
        )
    } else {
        None
    }
}

fn push_count_phrase(out: &mut String, n: usize, singular: &str, plural: &str)
    ensures
        final(out)@ == old(out)@ + count_phrase(n as nat, singular@, plural@),
{
    if n == 1 {
        out.append("1 ");
        out.append(singular);
    } else {
        push_decimal(out, n as u128);
        out.append(" ");
        out.append(plural);
    }
    assert(final(out)@ =~= old(out)@ + count_phrase(n as nat, singular@, plural@));
}

impl DiagnosticEmitter {
    /// The summary line "N error(s), M warning(s) emitted", or `None` when
    /// nothing was reported.
    pub fn summary_line(&self) -> (r: Option<String>)
        requires
            self.wf(),
        ensures
            summary_text(count_errors(self.emitted()), count_warnings(self.emitted())) matches Some(t)
                ==> r is Some && r->0@ == t,
            summary_text(count_errors(self.emitted()), count_warnings(self.emitted())) is None
                ==> r is None,
    {
        if self.error_count > 0 || self.warning_count > 0 {
            let mut out = String::new();
            push_count_phrase(&mut out, self.error_count, "error", "errors");
            out.append(", ");
            push_count_phrase(&mut out, self.warning_count, "warning", "warnings");
            out.append(" emitted");
            assert(out@ =~= summary_text(self.error_count as nat, self.warning_count as nat)->0);
            Some(out)
        } else {
            None
        }
    }
}

impl Default for DiagnosticEmitter {
    fn default() -> (r: Self)
        ensures
            r.wf(),
            r.emitted().len() == 0,
            r.source_map() == Map::<u32, SourceFile>::empty(),
    {
        DiagnosticEmitter::new()
    }
}

/// Emitting a diagnostic raises the error count by one exactly for errors
/// and internal compiler errors, and the warning count by one exactly for
/// warnings; notes change neither.
pub proof fn lemma_emit_counts(ds: Seq<Diagnostic>, d: Diagnostic)
    ensures
        count_errors(ds.push(d)) == count_errors(ds) + (if is_error_level(d.level) { 1nat } else { 0nat }),
        count_warnings(ds.push(d)) == count_warnings(ds) + (if d.level == DiagnosticLevel::Warning {
            1nat
        } else {
            0nat
        }),
{
    assert(ds.push(d).drop_last() =~= ds);
}


/// The underline row of a label lines up with the source row above it:
/// both start with a gutter of `n + 4` visible characters (a space, the
/// line number or as many spaces, a space, `|`, a space; `n` is the width of
/// the line number), and after the gutter the underline row holds exactly
/// `col` spaces before its marks begin, so the first mark stands under the
/// label's column. The marks (`^` for a primary label, `-` otherwise) run
/// for the span's length (at least one), cut at the end of the line's text.
pub proof fn lemma_underline_under_column(line: int, col: int, text_len: int, label: Label)
    requires
        line >= 0,
        col >= 0,
    ensures
        ({
            let u = underline_line(line, col, text_len, label);
            let n = decimal((line + 1) as nat).len() as int;
            let gutter = 1 + n + 14;
            let marks_at = gutter + col + 7;
            let span_len: int = if label.span.end - label.span.start >= 1 {
                label.span.end - label.span.start
            } else {
                1
            };
            let avail: int = if text_len >= col { text_len - col } else { 0 };
            let count: int = if span_len <= avail { span_len } else { avail };
            &&& u.len() > marks_at + count
            &&& u[0] == ' '
            &&& forall|k: int| 1 <= k < 1 + n ==> u[k] == ' '
            &&& u[1 + n] == ' '
            &&& u[gutter - 6] == '|'
            &&& u[gutter - 1] == ' '
            &&& forall|k: int| gutter <= k < gutter + col ==> u[k] == ' '
            &&& u[gutter + col] == '\x1b'
            &&& forall|k: int|
                marks_at <= k < marks_at + count ==> u[k] == (if label.is_primary {
                    '^'
                } else {
                    '-'
                })
            &&& u[marks_at + count] == ' '
        }),
        ({
            let s = source_line(line, seq![]);
            let n = decimal((line + 1) as nat).len() as int;
            &&& s[0] == ' '
            &&& s.subrange(8, 8 + n) == decimal((line + 1) as nat)
            &&& s[8 + n + 4] == ' '
            &&& s[8 + n + 12] == '|'
            &&& s[8 + n + 17] == ' '
            &&& s.len() == 8 + n + 18 + 1
        }),
{
    let n = decimal((line + 1) as nat).len() as int;
    let span_len: int = if label.span.end - label.span.start >= 1 {
        label.span.end - label.span.start
    } else {
        1
    };
    let avail: int = if text_len >= col { text_len - col } else { 0 };
    let count: int = if span_len <= avail { span_len } else { avail };
    let mark = if label.is_primary { '^' } else { '-' };
    let color = if label.is_primary { "\x1b[1;31m"@ } else { "\x1b[1;34m"@ };
    reveal_strlit(" ");
    reveal_strlit(" \x1b[1;34m|\x1b[0m ");
    reveal_strlit("\x1b[1;31m");
    reveal_strlit("\x1b[1;34m");
    reveal_strlit("\x1b[0m\n");
    reveal_strlit("\x1b[0m \x1b[1;34m|\x1b[0m ");
    reveal_strlit("\n");
    reveal_strlit(" \x1b[1;34m");
    let a = " "@;
    let b = spaces(n as nat);
    let c = " \x1b[1;34m|\x1b[0m "@;
    let d = spaces(col as nat);
    let m = repeat_char(mark, count as nat);
    let rest = " "@ + label.message@ + "\x1b[0m\n"@;
    assert(c.len() == 14);
    assert(color.len() == 7);
    let u = underline_line(line, col, text_len, label);
    let p1 = a + b;
    let p2 = p1 + c;
    let p3 = p2 + d;
    let p4 = p3 + color;
    let p5 = p4 + m;
    assert(u =~= p5 + rest);
    assert(rest[0] == ' ');
    assert(forall|k: int| 0 <= k < p5.len() ==> u[k] == #[trigger] p5[k]);
    assert(forall|k: int| 0 <= k < p4.len() ==> p5[k] == #[trigger] p4[k]);
    assert(forall|k: int| 0 <= k < p3.len() ==> p4[k] == #[trigger] p3[k]);
    assert(forall|k: int| 0 <= k < p2.len() ==> p3[k] == #[trigger] p2[k]);
    assert(forall|k: int| 0 <= k < p1.len() ==> p2[k] == #[trigger] p1[k]);
    assert(u[p5.len() as int] == rest[0]);
    assert forall|k: int| 1 <= k < 1 + n implies u[k] == ' ' by {
        assert(p1[k] == b[k - 1]);
    }
    assert(u[0] == ' ') by {
        assert(p1[0] == a[0]);
    }
    assert(u[1 + n] == ' ') by {
        assert(p2[1 + n] == c[0]);
    }
    assert(u[1 + n + 8] == '|') by {
        assert(p2[1 + n + 8] == c[8]);
    }
    assert(u[1 + n + 13] == ' ') by {
        assert(p2[1 + n + 13] == c[13]);
    }
    assert forall|k: int| 1 + n + 14 <= k < 1 + n + 14 + col implies u[k] == ' ' by {
        assert(p3[k] == d[k - p2.len()]);
    }
    assert(u[1 + n + 14 + col] == '\x1b') by {
        assert(p4[p3.len() as int] == color[0]);
    }
    assert forall|k: int|
        1 + n + 14 + col + 7 <= k < 1 + n + 14 + col + 7 + count implies u[k] == mark by {
        assert(p5[k] == m[k - p4.len()]);
    }
    let s = source_line(line, seq![]);
    let s1 = " \x1b[1;34m"@;
    let s2 = "\x1b[0m \x1b[1;34m|\x1b[0m "@;
    assert(s1.len() == 8);
    assert(s2.len() == 18);
    assert(s =~= s1 + decimal((line + 1) as nat) + s2 + Seq::<char>::empty() + "\n"@);
    assert(s.subrange(8, 8 + n) =~= decimal((line + 1) as nat));
}

/// The snippet drawn for a label ends with its underline row, placed at
/// the column of the span's start within its line (its offset from the
/// start of that line), on that line's text.
pub proof fn lemma_label_underline_at_start_column(sources: Map<u32, SourceFile>, label: Label)
    requires
        label_shown(sources, label),
    ensures
        ({
            let file = sources[label.span.source_id.0];
            let b = file.bytes();
            let line = line_col_of(b, label.span.start as int).0;
            let col = line_col_of(b, label.span.start as int).1;
            let u = underline_line(line, col, line_text_bytes(b, line).len() as int, label);
            let t = label_text(sources, label);
            &&& col == label.span.start - line_starts_of(b)[line]
            &&& t.len() >= u.len()
            &&& t.subrange(t.len() - u.len(), t.len() as int) == u
        }),
{
    let file = sources[label.span.source_id.0];
    let b = file.bytes();
    let line = line_col_of(b, label.span.start as int).0;
    let col = line_col_of(b, label.span.start as int).1;
    let u = underline_line(line, col, line_text_bytes(b, line).len() as int, label);
    let t = label_text(sources, label);
    let head = location_line(file, line, col) + gutter_line(line) + source_line(
        line,
        decode_utf8(line_text_bytes(b, line)),
    );
    assert(t == head + u);
    assert(t.subrange(t.len() - u.len(), t.len() as int) =~= u);
}

/// The diagnostics of the `emit` calls in `calls`, in call order; `None`
/// stands for an `add_source` call.
pub open spec fn emitted_by(calls: Seq<Option<Diagnostic>>) -> Seq<Diagnostic>
    decreases calls.len(),
{
    if calls.len() == 0 {
        Seq::empty()
    } else {
        let prev = emitted_by(calls.drop_last());
        match calls.last() {
            Some(d) => prev.push(d),
            None => prev,
        }
    }
}

/// Starting from an emitter that holds nothing (as `new` gives), a run of
/// `emit` and `add_source` calls leaves exactly the emitted diagnostics, each
/// once and in emission order; `finish` returns them. `states[i]` is the
/// emitter before call `i`, and `Some(d)` stands for `emit(d)`, `None` for
/// `add_source`.
pub proof fn lemma_finish_returns_every_emit(
    states: Seq<DiagnosticEmitter>,
    calls: Seq<Option<Diagnostic>>,
)
    requires
        states.len() == calls.len() + 1,
        states[0].emitted().len() == 0,
        forall|i: int|
            #![trigger calls[i]]
            0 <= i < calls.len() ==> states[i + 1].emitted() == match calls[i] {
                Some(d) => states[i].emitted().push(d),
                None => states[i].emitted(),
            },
    ensures
        states.last().emitted() == emitted_by(calls),
        count_errors(states.last().emitted()) == count_errors(emitted_by(calls)),
        count_warnings(states.last().emitted()) == count_warnings(emitted_by(calls)),
    decreases calls.len(),
{
    if calls.len() == 0 {
        assert(states[0].emitted() =~= Seq::<Diagnostic>::empty());
    } else {
        let n = calls.len() as int;
        let c = calls.drop_last();
        let st = states.drop_last();
        assert forall|i: int| #![trigger c[i]] 0 <= i < c.len() implies st[i + 1].emitted() == match c[i] {
            Some(d) => st[i].emitted().push(d),
            None => st[i].emitted(),
        } by {
            assert(c[i] == calls[i]);
        }
        lemma_finish_returns_every_emit(st, c);
        assert(calls[n - 1] == calls.last());
    }
}

} // verus!
