use agam::driver::call_cache::{
    call_cache_signature, effective_call_cache_selection, emit_experimental_feature_warnings,
    source_features_from_call_cache, CallCacheSelection, ExperimentalFeature,
    ExperimentalFeatureUsage, FeatureFlags,
};
use agam::report::DiagnosticEmitter;
use agam::span::{SourceFile, SourceId, Span};
use agam::strset::StrSet;

fn set(items: &[&str]) -> StrSet {
    let mut s = StrSet::new();
    for item in items {
        s.insert((*item).to_string());
    }
    s
}

fn selection(disable: bool, enable: bool, optimize: bool, selected: &[&str], opt: &[&str], exclude: &[&str]) -> CallCacheSelection {
    CallCacheSelection {
        disable_all: disable,
        enable_all: enable,
        optimize_all: optimize,
        include_functions: set(selected),
        optimize_functions: set(opt),
        exclude_functions: set(exclude),
    }
}

#[test]
fn strset_keeps_sorted_unique_elements() {
    let mut s = set(&["b", "a", "c", "a"]);
    assert_eq!(s.to_vec(), vec!["a".to_string(), "b".to_string(), "c".to_string()]);
    assert_eq!(s.len(), 3);
    s.remove("b");
    s.remove("zzz");
    assert_eq!(s.to_vec(), vec!["a".to_string(), "c".to_string()]);
    assert!(s.contains("c"));
    assert!(!s.contains("b"));
    assert!(StrSet::new().is_empty());
}

#[test]
fn caching_follows_the_selection_and_exclusion_wins() {
    let automatic = CallCacheSelection::default();
    assert!(automatic.resolved_enable_all());
    assert!(automatic.is_enabled());
    assert!(automatic.caches_function("anything"));
    let disabled = selection(true, false, false, &["hot"], &[], &["cold"]);
    assert!(!disabled.resolved_enable_all());
    assert!(disabled.caches_function("hot"));
    assert!(!disabled.caches_function("warm"));
    let excluded = selection(false, true, true, &["cold"], &["cold"], &["cold"]);
    assert!(!excluded.caches_function("cold"));
    assert!(excluded.caches_function("other"));
}

#[test]
fn included_functions_merge_selected_and_optimized() {
    let s = selection(false, false, false, &["zeta", "alpha"], &["beta", "alpha"], &["gamma"]);
    assert_eq!(s.included_functions(), vec!["alpha".to_string(), "beta".to_string(), "zeta".to_string()]);
    assert_eq!(s.optimized_functions(), vec!["alpha".to_string(), "beta".to_string()]);
    assert_eq!(s.excluded_functions(), vec!["gamma".to_string()]);
}

#[test]
fn call_cache_signature_lists_switches_and_functions() {
    let s = selection(true, false, true, &["b", "a"], &[], &["c"]);
    assert_eq!(
        call_cache_signature(&s),
        "strategy=auto-v1;disable_all=true;enable_all=false;optimize_all=true;include=a,b;optimize=;exclude=c"
    );
}

#[test]
fn command_line_flag_widens_the_source_selection() {
    let source = source_features_from_call_cache(selection(true, false, false, &["f"], &[], &[]));
    assert!(source.experimental_usages.is_empty());
    let merged = effective_call_cache_selection(FeatureFlags { call_cache: true }, &source);
    assert!(!merged.disable_all);
    assert!(merged.enable_all);
    assert!(merged.include_functions.contains("f"));
    let unchanged = effective_call_cache_selection(FeatureFlags { call_cache: false }, &source);
    assert!(unchanged.disable_all);
    assert!(!unchanged.enable_all);
    let merged_again = selection(true, false, false, &[], &[], &[]).merge_cli(true);
    assert!(merged_again.enable_all && !merged_again.disable_all);
}

#[test]
fn experimental_feature_warnings_are_reported_once_per_usage() {
    let mut emitter = DiagnosticEmitter::new();
    emitter.add_source(SourceFile::new(
        SourceId(0),
        "hot.agam".into(),
        "@experimental.call_cache.optimize\nfn hot() {}\n".into(),
    ));
    let usage = ExperimentalFeatureUsage {
        feature: ExperimentalFeature::CallCacheOptimize,
        span: Span::new(SourceId(0), 0, 33),
    };
    let text = emit_experimental_feature_warnings(&mut emitter, &vec![usage, usage]);
    assert_eq!(emitter.warning_count(), 1);
    assert_eq!(emitter.error_count(), 0);
    assert!(text.contains("warning[W2001]"));
    assert!(text.contains("call-cache optimize mode is experimental"));
    assert!(text.contains("`@experimental.call_cache.optimize` is enabled here"));
    let spec = ExperimentalFeature::CallCacheOptimize.spec();
    assert_eq!(spec.code, "W2001");
    assert_eq!(spec.annotation, "@experimental.call_cache.optimize");
}
