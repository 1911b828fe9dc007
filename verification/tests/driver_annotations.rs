use agam::driver::annotations::{
    collect_experimental_function_features, merge_function_call_cache_annotations,
    parse_annotation_name, skip_trivia_tokens, source_feature_flags_from_tokens,
    AnnotatedFunction, FunctionAnnotation, SourceToken, TokenKind,
};
use agam::driver::call_cache::{ExperimentalFeature, SourceFeatureFlags};
use agam::span::{SourceId, Span};

/// The tokens of `source` that matter to annotations: `@`, identifiers,
/// dots, newlines and `//` comments; everything else is `Other`.
fn tokenize(source: &str) -> Vec<SourceToken> {
    let chars: Vec<(usize, char)> = source.char_indices().collect();
    let mut tokens = Vec::new();
    let mut i = 0;
    while i < chars.len() {
        let (start, c) = chars[i];
        let span = |end: usize| Span { source_id: SourceId(0), start: start as u32, end: end as u32 };
        if c == ' ' || c == '\t' || c == '\r' {
            i += 1;
        } else if c == '\n' {
            tokens.push(SourceToken { kind: TokenKind::Newline, lexeme: "\n".into(), span: span(start + 1) });
            i += 1;
        } else if c == '@' {
            tokens.push(SourceToken { kind: TokenKind::At, lexeme: "@".into(), span: span(start + 1) });
            i += 1;
        } else if c == '.' {
            tokens.push(SourceToken { kind: TokenKind::Dot, lexeme: ".".into(), span: span(start + 1) });
            i += 1;
        } else if c == '/' && i + 1 < chars.len() && chars[i + 1].1 == '/' {
            let mut j = i;
            while j < chars.len() && chars[j].1 != '\n' {
                j += 1;
            }
            let end = if j < chars.len() { chars[j].0 } else { source.len() };
            tokens.push(SourceToken { kind: TokenKind::LineComment, lexeme: source[start..end].into(), span: span(end) });
            i = j;
        } else if c.is_ascii_alphabetic() || c == '_' {
            let mut j = i;
            while j < chars.len() && (chars[j].1.is_ascii_alphanumeric() || chars[j].1 == '_') {
                j += 1;
            }
            let end = if j < chars.len() { chars[j].0 } else { source.len() };
            tokens.push(SourceToken { kind: TokenKind::Identifier, lexeme: source[start..end].into(), span: span(end) });
            i = j;
        } else {
            tokens.push(SourceToken { kind: TokenKind::Other, lexeme: c.to_string(), span: span(start + 1) });
            i += 1;
        }
    }
    tokens
}

fn function(name: &str, annotations: &[&str]) -> AnnotatedFunction {
    AnnotatedFunction {
        name: name.into(),
        annotations: annotations
            .iter()
            .map(|a| FunctionAnnotation { name: (*a).into(), span: Span { source_id: SourceId(0), start: 0, end: 0 } })
            .collect(),
    }
}

fn source_features(source: &str, functions: &[AnnotatedFunction]) -> SourceFeatureFlags {
    let tokens = tokenize(source);
    let mut features = source_feature_flags_from_tokens(&tokens);
    merge_function_call_cache_annotations(&functions.to_vec(), &mut features.call_cache);
    features
}

#[test]
fn test_source_call_cache_can_enable_whole_module_and_opt_out_function() {
    let features = source_features(
        "\n@lang.advance\n@lang.feat.call_cache\n\nfn hot(n: i64) -> i64 { return n + 1; }\n\n@lang.feat.no_call_cache\nfn cold(n: i64) -> i64 { return n * 2; }\n",
        &[function("hot", &[]), function("cold", &["lang.feat.no_call_cache"])],
    );
    assert!(features.call_cache.enable_all);
    assert!(!features.call_cache.disable_all);
    assert!(features.call_cache.exclude_functions.contains("cold"));
    assert!(!features.call_cache.include_functions.contains("cold"));
}

#[test]
fn test_source_call_cache_can_target_specific_function_without_global_enable() {
    let features = source_features(
        "\n@lang.advance\nfn main() -> i32 { if hot(1) > 0 { return 0; } return 1; }\n\n@lang.feat.call_cache\nfn hot(n: i64) -> i64 { return n + 1; }\n",
        &[function("main", &[]), function("hot", &["lang.feat.call_cache"])],
    );
    assert!(!features.call_cache.enable_all);
    assert!(!features.call_cache.disable_all);
    assert!(features.call_cache.include_functions.contains("hot"));
    assert!(features.call_cache.exclude_functions.is_empty());
}

#[test]
fn test_source_no_call_cache_disables_automatic_service() {
    let features = source_features(
        "\n@lang.advance\n@lang.feat.no_call_cache\n\nfn main() -> i32 { return 0; }\n",
        &[function("main", &[])],
    );
    assert!(features.call_cache.disable_all);
    assert!(!features.call_cache.enable_all);
    assert!(!features.call_cache.optimize_all);
}

#[test]
fn test_source_call_cache_optimize_marks_experimental_usage() {
    let features = source_features(
        "\n@lang.advance\n@experimental.call_cache.optimize\n\n@experimental.call_cache.optimize\nfn hot(n: i64) -> i64 { return n + 1; }\n",
        &[function("hot", &["experimental.call_cache.optimize"])],
    );
    assert!(features.call_cache.enable_all);
    assert!(!features.call_cache.disable_all);
    assert!(features.call_cache.optimize_all);
    assert!(features.call_cache.optimize_functions.contains("hot"));
    assert_eq!(features.experimental_usages.len(), 2);
}

#[test]
fn annotation_names_are_dotted_identifiers() {
    let tokens = tokenize("@experimental.call_cache.optimize fn");
    let parsed = parse_annotation_name(&tokens, 0).expect("annotation");
    assert_eq!(parsed.name, "experimental.call_cache.optimize");
    assert_eq!(parsed.span, Span { source_id: SourceId(0), start: 0, end: 33 });
    assert_eq!(parsed.next_index, 6);
    assert!(parse_annotation_name(&tokenize("@experimental.("), 0).is_none());
    assert_eq!(parse_annotation_name(&tokenize("@experimental. fn"), 0).map(|a| a.name).as_deref(), Some("experimental.fn"));
    assert!(parse_annotation_name(&tokenize("fn"), 0).is_none());
    assert!(parse_annotation_name(&tokenize("@"), 0).is_none());
    assert!(parse_annotation_name(&tokens, 99).is_none());
}

#[test]
fn trivia_is_skipped_between_module_annotations() {
    let tokens = tokenize("\n// note\n\n@a\nfn");
    assert_eq!(skip_trivia_tokens(&tokens, 0), 4);
    assert_eq!(skip_trivia_tokens(&tokens, 7), 7);
    let features = source_feature_flags_from_tokens(&tokenize(
        "// header\n@experimental.call_cache.optimize\n@experimental.no_call_cache.optimize\n",
    ));
    assert!(features.call_cache.enable_all);
    assert!(!features.call_cache.optimize_all);
    assert_eq!(features.experimental_usages.len(), 1);
    assert_eq!(features.experimental_usages[0].feature, ExperimentalFeature::CallCacheOptimize);
}

#[test]
fn module_scan_stops_at_the_first_non_annotation() {
    let features = source_feature_flags_from_tokens(&tokenize("fn main() {}\n@lang.feat.no_call_cache\n"));
    assert!(!features.call_cache.disable_all);
    assert!(!features.call_cache.enable_all);
}

#[test]
fn later_function_annotations_override_earlier_ones() {
    let mut features = source_feature_flags_from_tokens(&Vec::new());
    let functions = vec![
        function("f", &["experimental.call_cache.optimize", "experimental.no_call_cache"]),
        function("g", &["experimental.no_call_cache", "lang.feat.call_cache"]),
        function("h", &["experimental.call_cache.optimize", "experimental.no_call_cache.optimize"]),
    ];
    merge_function_call_cache_annotations(&functions, &mut features.call_cache);
    assert!(features.call_cache.exclude_functions.contains("f"));
    assert!(!features.call_cache.include_functions.contains("f"));
    assert!(!features.call_cache.optimize_functions.contains("f"));
    assert!(features.call_cache.include_functions.contains("g"));
    assert!(!features.call_cache.exclude_functions.contains("g"));
    assert!(features.call_cache.include_functions.contains("h"));
    assert!(!features.call_cache.optimize_functions.contains("h"));
    let mut usages = Vec::new();
    collect_experimental_function_features(&functions, &mut usages);
    assert_eq!(usages.len(), 2);
}
