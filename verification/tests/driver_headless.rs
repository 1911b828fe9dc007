use agam::driver::backend::Backend;
use agam::driver::headless::{
    build_exec_request, normalize_headless_request, HeadlessExecutionPolicy,
    HeadlessExecutionRequest,
};
use agam::driver::repl::HeadlessExecutionBackend;

fn policy() -> HeadlessExecutionPolicy {
    HeadlessExecutionPolicy {
        max_source_bytes: 256 * 1024,
        max_arg_count: 64,
        max_total_arg_bytes: 16 * 1024,
        max_runtime_ms: 5_000,
        max_memory_bytes: 256 * 1024 * 1024,
        allow_native_backends: false,
        sandbox_level: "process".to_string(),
        deny_network: true,
        deny_process_spawn: true,
    }
}

fn request(source: &str) -> HeadlessExecutionRequest {
    HeadlessExecutionRequest {
        source: source.to_string(),
        filename: "snippet.agam".to_string(),
        args: Vec::new(),
        backend: HeadlessExecutionBackend::Jit,
        opt_level: 2,
        fast: false,
        policy: policy(),
    }
}

#[test]
fn test_build_exec_request_from_inline_source_uses_cli_options() {
    let request = build_exec_request(
        "fn main() -> i32 { return 0; }\n".into(),
        "agent.agam".into(),
        Backend::Llvm,
        3,
        true,
        vec!["hello".into(), "world".into()],
        "process".into(),
        false,
        false,
        policy(),
    );
    assert_eq!(request.filename, "agent.agam");
    assert_eq!(request.source, "fn main() -> i32 { return 0; }\n");
    assert_eq!(request.backend, HeadlessExecutionBackend::Llvm);
    assert_eq!(request.opt_level, 3);
    assert!(request.fast);
    assert_eq!(request.args, vec!["hello".to_string(), "world".to_string()]);
    assert!(request.policy.allow_native_backends);
    assert!(!request.policy.deny_network);
}

#[test]
fn build_exec_request_keeps_the_jit_sandboxed() {
    let request = build_exec_request(
        "x".into(),
        "demo.agam".into(),
        Backend::Jit,
        2,
        false,
        Vec::new(),
        "strict".into(),
        true,
        true,
        policy(),
    );
    assert_eq!(request.backend, HeadlessExecutionBackend::Jit);
    assert!(!request.policy.allow_native_backends);
    assert_eq!(request.policy.sandbox_level, "strict");
}

#[test]
fn test_normalize_headless_request_rejects_source_over_policy_limit() {
    let mut r = request("fn main() -> i32 { return 0; }\n");
    r.policy.max_source_bytes = 8;
    let error = normalize_headless_request(&r).expect_err("oversized source should be rejected");
    assert!(error.contains("exceeding the policy limit"));
    assert_eq!(
        error,
        "headless execution request source is 31 bytes, exceeding the policy limit of 8 bytes"
    );
}

#[test]
fn test_normalize_headless_request_rejects_too_many_args() {
    let mut r = request("fn main() -> i32 { return 0; }\n");
    r.args = vec!["alpha".into(), "beta".into()];
    r.policy.max_arg_count = 1;
    let error = normalize_headless_request(&r).expect_err("requests exceeding the arg-count policy should be rejected");
    assert!(error.contains("exceeding the policy limit"));
    assert_eq!(error, "headless execution request includes 2 arg(s), exceeding the policy limit of 1");
}

#[test]
fn test_normalize_headless_request_rejects_native_backend_without_policy_opt_in() {
    let mut r = request("fn main() -> i32 { return 0; }\n");
    r.backend = HeadlessExecutionBackend::Llvm;
    let error = normalize_headless_request(&r).expect_err("native backend should require explicit policy opt-in");
    assert!(error.contains("policy.allow_native_backends=true"));
    assert!(error.contains("`llvm`"));
}

#[test]
fn test_normalize_headless_request_rejects_zero_runtime_limit() {
    let mut r = request("fn main() -> i32 { return 0; }\n");
    r.policy.max_runtime_ms = 0;
    let error = normalize_headless_request(&r).expect_err("zero runtime limit should be rejected");
    assert!(error.contains("max_runtime_ms"));
}

#[test]
fn test_normalize_headless_request_rejects_zero_memory_limit() {
    let mut r = request("fn main() -> i32 { return 0; }\n");
    r.policy.max_memory_bytes = 0;
    let error = normalize_headless_request(&r).expect_err("zero memory limit should be rejected");
    assert!(error.contains("max_memory_bytes"));
}

#[test]
fn normalize_headless_request_checks_source_level_and_argument_bytes() {
    assert_eq!(
        normalize_headless_request(&request("  \n\t")),
        Err("headless execution request source cannot be empty".to_string())
    );
    let mut high = request("x");
    high.opt_level = 9;
    assert_eq!(
        normalize_headless_request(&high),
        Err("headless execution opt_level `9` must be 0..=3".to_string())
    );
    let mut wide = request("x");
    wide.args = vec!["é".into(), "abc".into()];
    wide.policy.max_total_arg_bytes = 4;
    assert_eq!(
        normalize_headless_request(&wide),
        Err("headless execution request arguments occupy 5 bytes, exceeding the policy limit of 4 bytes".to_string())
    );
}

#[test]
fn normalized_request_has_a_safe_file_name_and_normalizes_to_itself() {
    let mut r = request("fn main() -> i32 { return 0; }\n");
    r.filename = "../tmp/my notes.txt".to_string();
    r.args = vec!["a".into()];
    let normalized = normalize_headless_request(&r).expect("valid request");
    assert_eq!(normalized.filename, "my_notes.txt.agam");
    assert_eq!(normalized.source, r.source);
    assert_eq!(normalized.args, r.args);
    assert_eq!(normalized.policy, r.policy);
    let again = normalize_headless_request(&normalized).expect("still valid");
    assert_eq!(again, normalized);
}

#[test]
fn parse_errors_render_one_error_line_each() {
    let text = agam::driver::headless::render_headless_parse_errors(&vec!["expected `)`".to_string(), "unexpected end".to_string()]);
    assert_eq!(text, "\x1b[1;31merror\x1b[0m: expected `)`\n\x1b[1;31merror\x1b[0m: unexpected end\n");
    assert_eq!(agam::driver::headless::render_headless_parse_errors(&Vec::new()), "");
}
