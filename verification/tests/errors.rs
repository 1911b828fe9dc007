use agam::diagnostic::{Diagnostic, DiagnosticLevel, Label};
use agam::report::DiagnosticEmitter;
use agam::span::{SourceFile, SourceId, Span};

fn sample_file() -> SourceFile {
    SourceFile::new(
        SourceId(0),
        "test.agam".to_string(),
        "fn main():\n    print(\"hello\")\n    return 0\n".to_string(),
    )
}

#[test]
fn test_emitter_counts() {
    let mut emitter = DiagnosticEmitter::new();
    emitter.add_source(SourceFile::new(
        SourceId(0),
        "test.agam".into(),
        "let x = 42\n".into(),
    ));

    emitter.emit(Diagnostic::error("E0001", "test error"));
    emitter.emit(Diagnostic::warning("W0001", "test warning"));
    emitter.emit(Diagnostic::note("test note"));

    assert_eq!(emitter.error_count(), 1);
    assert_eq!(emitter.warning_count(), 1);
    assert!(emitter.has_errors());
}

#[test]
fn test_emitter_no_errors() {
    let emitter = DiagnosticEmitter::new();
    assert!(!emitter.has_errors());
    assert_eq!(emitter.error_count(), 0);
}

#[test]
fn test_emit_with_label() {
    let mut emitter = DiagnosticEmitter::new();
    emitter.add_source(SourceFile::new(
        SourceId(0),
        "test.agam".into(),
        "let x: i32 = \"hello\"\n".into(),
    ));

    let diag = Diagnostic::error("E0001", "mismatched types").with_label(Label::primary(
        Span::new(SourceId(0), 14, 21),
        "expected `i32`, found `str`",
    ));

    emitter.emit(diag);
    assert!(emitter.has_errors());
}

#[test]
fn test_line_col_first_line() {
    let file = sample_file();
    let (line, col) = file.offset_to_line_col(3);
    assert_eq!(line, 0);
    assert_eq!(col, 3);
}

#[test]
fn test_line_col_second_line() {
    let file = sample_file();
    let (line, col) = file.offset_to_line_col(11);
    assert_eq!(line, 1);
    assert_eq!(col, 0);
}

#[test]
fn test_line_text() {
    let file = sample_file();
    assert_eq!(file.line_text(0), "fn main():");
    assert_eq!(file.line_text(1), "    print(\"hello\")");
    assert_eq!(file.line_text(2), "    return 0");
}

#[test]
fn test_span_merge() {
    let s1 = Span::new(SourceId(0), 0, 5);
    let s2 = Span::new(SourceId(0), 10, 20);
    let merged = s1.merge(s2);
    assert_eq!(merged.start, 0);
    assert_eq!(merged.end, 20);
}

#[test]
fn test_span_point() {
    let s = Span::point(SourceId(0), 42);
    assert!(s.is_empty());
    assert_eq!(s.len(), 0);
}

#[test]
fn test_dummy_span() {
    let s = Span::dummy();
    assert!(s.is_dummy());
}

#[test]
fn span_merge_is_commutative_and_idempotent_on_examples() {
    let a = Span::new(SourceId(3), 4, 9);
    let b = Span::new(SourceId(3), 7, 15);
    assert_eq!(a.merge(b), b.merge(a));
    assert_eq!(a.merge(a), a);
    let c = Span::new(SourceId(3), 1, 2);
    assert_eq!(a.merge(b).merge(c), a.merge(b.merge(c)));
    let m = a.merge(c);
    assert_eq!(m.start, 1);
    assert_eq!(m.end, 9);
}

#[test]
fn span_len_and_display() {
    let s = Span::new(SourceId(2), 5, 12);
    assert_eq!(s.len(), 7);
    assert!(!s.is_empty());
    assert!(!s.is_dummy());
    assert_eq!(s.display_text(), "5..12");
}

#[test]
fn source_file_counts_lines_and_handles_last_offset() {
    let file = sample_file();
    assert_eq!(file.line_count(), 4);
    let (line, col) = file.offset_to_line_col(43);
    assert_eq!(line, 3);
    assert_eq!(col, 0);
    assert_eq!(file.line_text(3), "");
}

#[test]
fn source_file_line_text_strips_carriage_return() {
    let file = SourceFile::new(SourceId(1), "crlf.agam".into(), "a\r\nbc\r\n".into());
    assert_eq!(file.line_text(0), "a");
    assert_eq!(file.line_text(1), "bc");
    assert_eq!(file.offset_to_line_col(4), (1, 1));
}

#[test]
fn emitted_diagnostic_renders_header_location_and_underline() {
    let mut emitter = DiagnosticEmitter::new();
    emitter.add_source(SourceFile::new(
        SourceId(0),
        "test.agam".into(),
        "let x: i32 = \"hello\"\n".into(),
    ));
    let diag = Diagnostic::error("E0001", "mismatched types")
        .with_label(Label::primary(
            Span::new(SourceId(0), 13, 20),
            "expected `i32`",
        ))
        .with_help("use a number");
    let text = emitter.emit(diag);
    assert!(text.contains("error[E0001]"));
    assert!(text.contains("mismatched types"));
    assert!(text.contains("test.agam:1:14"));
    assert!(text.contains("let x: i32 = \"hello\""));
    assert!(text.contains("^^^^^^^"));
    assert!(text.contains("expected `i32`"));
    assert!(text.contains("use a number"));
}

#[test]
fn warnings_and_notes_are_not_errors() {
    let mut emitter = DiagnosticEmitter::new();
    emitter.emit(Diagnostic::warning("W0002", "unused"));
    emitter.emit(Diagnostic::note("context"));
    assert!(!emitter.has_errors());
    assert_eq!(emitter.error_count(), 0);
    assert_eq!(emitter.warning_count(), 1);
    emitter.emit(Diagnostic::ice("compiler bug"));
    assert!(emitter.has_errors());
    assert_eq!(emitter.error_count(), 1);
    let all = emitter.finish();
    assert_eq!(all.len(), 3);
    assert_eq!(all[2].level, DiagnosticLevel::Ice);
}

#[test]
fn summary_line_counts_errors_and_warnings() {
    let mut emitter = DiagnosticEmitter::new();
    assert_eq!(emitter.summary_line(), None);
    emitter.emit(Diagnostic::error("E1", "one"));
    emitter.emit(Diagnostic::error("E2", "two"));
    emitter.emit(Diagnostic::warning("W1", "three"));
    let line = emitter.summary_line().expect("summary expected");
    assert_eq!(line, "2 errors, 1 warning emitted");
}

#[test]
fn summary_line_uses_singular_forms_for_one() {
    let mut emitter = DiagnosticEmitter::new();
    emitter.emit(Diagnostic::error("E1", "one"));
    emitter.emit(Diagnostic::warning("W1", "two"));
    assert_eq!(emitter.summary_line().as_deref(), Some("1 error, 1 warning emitted"));
    emitter.emit(Diagnostic::note("three"));
    assert_eq!(emitter.summary_line().as_deref(), Some("1 error, 1 warning emitted"));
}

#[test]
fn summary_line_with_only_warnings_still_names_zero_errors() {
    let mut emitter = DiagnosticEmitter::new();
    emitter.emit(Diagnostic::warning("W1", "one"));
    emitter.emit(Diagnostic::warning("W2", "two"));
    assert_eq!(emitter.summary_line().as_deref(), Some("0 errors, 2 warnings emitted"));
}

#[test]
fn lines_rejoin_into_the_source_text() {
    let source = "fn main():\n\n    return 0\n";
    let file = SourceFile::new(SourceId(3), "join.agam".to_string(), source.to_string());
    let lines: Vec<String> = (0..file.line_count()).map(|i| file.line_text(i).to_string()).collect();
    assert_eq!(lines.join("\n"), source);
    assert!(lines.iter().all(|l| !l.contains('\n')));
    assert_eq!(lines.len(), 4);
}

#[test]
fn finish_returns_every_emitted_diagnostic_in_order() {
    let mut emitter = DiagnosticEmitter::new();
    emitter.emit(Diagnostic::warning("W1", "first"));
    emitter.add_source(sample_file());
    emitter.emit(Diagnostic::note("second"));
    emitter.emit(Diagnostic::error("E1", "third"));
    let all = emitter.finish();
    let messages: Vec<&str> = all.iter().map(|d| d.message.as_str()).collect();
    assert_eq!(messages, vec!["first", "second", "third"]);
    assert_eq!(all[0].level, DiagnosticLevel::Warning);
    assert_eq!(all[1].level, DiagnosticLevel::Note);
    assert_eq!(all[2].level, DiagnosticLevel::Error);
}
