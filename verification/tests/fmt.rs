use agam::format::{format_source, format_source_with_options, FormatOptions};

#[test]
fn trims_trailing_whitespace_and_ensures_final_newline() {
    let formatted = format_source("fn main() {   \n    return 0; \t\n}");
    assert!(formatted.changed);
    assert_eq!(formatted.output, "fn main() {\n    return 0;\n}\n");
}

#[test]
fn normalizes_crlf_and_collapses_blank_runs() {
    let formatted = format_source("@lang.advance\r\n\r\n\r\nfn main() {\r\n    return 0;\r\n}\r\n");
    assert_eq!(formatted.output, "@lang.advance\n\nfn main() {\n    return 0;\n}\n");
}

#[test]
fn expands_leading_tabs_without_touching_inline_tabs() {
    let formatted = format_source("@lang.base\n\tlet x = 1\n\tprint(\"a\\tb\")\n");
    assert_eq!(formatted.output, "@lang.base\n    let x = 1\n    print(\"a\\tb\")\n");
}

#[test]
fn preserves_already_formatted_source() {
    let source = "@lang.advance\nfn main() {\n    return 0;\n}\n";
    let formatted = format_source(source);
    assert!(!formatted.changed);
    assert_eq!(formatted.output, source);
}

#[test]
fn formatting_twice_changes_nothing_more() {
    let inputs = [
        "fn main() {   \n    return 0; \t\n}",
        "\n\n\tx\r\n\r\n\r\n\r\ny  \n\n\n",
        "a\rb\n\t\tc\t\n",
        "",
        "   \n\t\n",
    ];
    for input in inputs {
        let once = format_source(input);
        let twice = format_source(&once.output);
        assert!(!twice.changed);
        assert_eq!(twice.output, once.output);
    }
}

#[test]
fn formatted_output_has_no_leading_or_trailing_blank_lines() {
    let formatted = format_source("\n\n  \nfn f() {}\n\n\n\n");
    assert_eq!(formatted.output, "fn f() {}\n");
}

#[test]
fn blank_or_empty_source_formats_to_a_single_newline() {
    let empty = format_source("");
    assert_eq!(empty.output, "\n");
    assert!(empty.changed);
    let blank = format_source(" \n\t\n\r\n");
    assert_eq!(blank.output, "\n");
    assert!(blank.changed);
    assert!(!format_source("\n").changed);
}

#[test]
fn options_control_blank_runs_and_tab_width() {
    let options = FormatOptions { max_consecutive_blank_lines: 2, indent_width: 2 };
    let formatted = format_source_with_options("a\n\n\n\n\tb\n", options);
    assert_eq!(formatted.output, "a\n\n\n  b\n");
    let default_options = FormatOptions::default();
    assert_eq!(default_options.max_consecutive_blank_lines, 1);
    assert_eq!(default_options.indent_width, 4);
}

#[test]
fn lone_carriage_return_becomes_a_line_break() {
    let formatted = format_source("a\rb");
    assert_eq!(formatted.output, "a\nb\n");
}
