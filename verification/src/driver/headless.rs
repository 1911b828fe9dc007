//! Headless execution requests: what an agent or tool asks the driver to
//! run, and the policy checks made before anything runs.

use vstd::prelude::*;
use vstd::utf8::*;
use vstd::string::StringSliceAdditionalSpecFns;
use crate::driver::backend::Backend;
use crate::driver::names::{
    lemma_sanitized_headless_filename_idempotent, sanitize_headless_filename,
    sanitized_headless_filename,
};
use crate::driver::repl::{
    backend_to_headless_backend, headless_backend_label, headless_of_backend,
    render_headless_backend_label, HeadlessExecutionBackend,
};
use crate::text::{copy_str, decimal, push_decimal, strings_view, trim, trim_ws};

verus! {

broadcast use vstd::utf8::group_utf8_lib;

/// Limits and permissions of a headless run.
#[derive(Clone, Debug, PartialEq, Eq)]
pub struct HeadlessExecutionPolicy {
    pub max_source_bytes: usize,
    pub max_arg_count: usize,
    pub max_total_arg_bytes: usize,
    pub max_runtime_ms: u64,
    pub max_memory_bytes: u64,
    pub allow_native_backends: bool,
    pub sandbox_level: String,
    pub deny_network: bool,
    pub deny_process_spawn: bool,
}

/// A program to run headlessly: its source and file name, its arguments,
/// the backend and optimization asked for, and the policy it runs under.
#[derive(Clone, Debug, PartialEq, Eq)]
pub struct HeadlessExecutionRequest {
    pub source: String,
    pub filename: String,
    pub args: Vec<String>,
    pub backend: HeadlessExecutionBackend,
    pub opt_level: u8,
    pub fast: bool,
    pub policy: HeadlessExecutionPolicy,
}

/// Number of bytes of `s` in UTF-8.
pub open spec fn utf8_len(s: Seq<char>) -> nat {
    encode_utf8(s).len()
}

/// The UTF-8 sizes of `args`, added with saturation at `usize::MAX`.
pub open spec fn total_arg_bytes(args: Seq<Seq<char>>) -> usize
    decreases args.len(),
{
    if args.len() == 0 {
        0
    } else {
        let prev = total_arg_bytes(args.drop_last());
        let n = utf8_len(args.last());
        if prev + n > usize::MAX {
            usize::MAX
        } else {
            (prev + n) as usize
        }
    }
}

/// Why `request` may not run, if it may not: the first broken rule among an
/// empty source, an optimization level above 3, the policy's size limits,
/// zero time or memory limits, and a native backend the policy does not
/// allow.
pub open spec fn headless_request_error(request: HeadlessExecutionRequest) -> Option<Seq<char>> {
    let p = request.policy;
    let source_bytes = utf8_len(request.source@);
    let args = strings_view(request.args@);
    if trim_ws(request.source@).len() == 0 {
        Some("headless execution request source cannot be empty"@)
    } else if request.opt_level > 3 {
        Some("headless execution opt_level `"@ + decimal(request.opt_level as nat) + "` must be 0..=3"@)
    } else if source_bytes > p.max_source_bytes {
        Some(
            "headless execution request source is "@ + decimal(source_bytes)
                + " bytes, exceeding the policy limit of "@ + decimal(p.max_source_bytes as nat)
                + " bytes"@,
        )
    } else if args.len() > p.max_arg_count {
        Some(
            "headless execution request includes "@ + decimal(args.len())
                + " arg(s), exceeding the policy limit of "@ + decimal(p.max_arg_count as nat),
        )
    } else if total_arg_bytes(args) > p.max_total_arg_bytes {
        Some(
            "headless execution request arguments occupy "@ + decimal(total_arg_bytes(args) as nat)
                + " bytes, exceeding the policy limit of "@ + decimal(p.max_total_arg_bytes as nat)
                + " bytes"@,
        )
    } else if p.max_runtime_ms == 0 {
        Some("headless execution policy `max_runtime_ms` must be greater than zero"@)
    } else if p.max_memory_bytes == 0 {
        Some("headless execution policy `max_memory_bytes` must be greater than zero"@)
    } else if !p.allow_native_backends && request.backend != HeadlessExecutionBackend::Jit {
        Some(
            "headless execution policy only allows the `jit` backend; `"@ + headless_backend_label(
                request.backend,
            ) + "` requires `policy.allow_native_backends=true`"@,
        )
    } else {
        None
    }
}

/// `n` is `request` with its file name sanitized and nothing else changed.
pub open spec fn normalized_form(n: HeadlessExecutionRequest, request: HeadlessExecutionRequest) -> bool {
    &&& n.filename@ == sanitized_headless_filename(request.filename@)
    &&& n.source@ == request.source@
    &&& strings_view(n.args@) == strings_view(request.args@)
    &&& n.backend == request.backend
    &&& n.opt_level == request.opt_level
    &&& n.fast == request.fast
    &&& n.policy.max_source_bytes == request.policy.max_source_bytes
    &&& n.policy.max_arg_count == request.policy.max_arg_count
    &&& n.policy.max_total_arg_bytes == request.policy.max_total_arg_bytes
    &&& n.policy.max_runtime_ms == request.policy.max_runtime_ms
    &&& n.policy.max_memory_bytes == request.policy.max_memory_bytes
    &&& n.policy.allow_native_backends == request.policy.allow_native_backends
    &&& n.policy.sandbox_level@ == request.policy.sandbox_level@
    &&& n.policy.deny_network == request.policy.deny_network
    &&& n.policy.deny_process_spawn == request.policy.deny_process_spawn
}

fn utf8_len_exec(s: &str) -> (r: usize)
    ensures
        r == utf8_len(s@),
{
    let b = s.as_bytes();
    assert(b@ == encode_utf8(s@));
    b.len()
}

fn message_with_count(prefix: &str, n: u128, middle: &str, m: u128, suffix: &str) -> (r: String)
    ensures
        r@ == prefix@ + decimal(n as nat) + middle@ + decimal(m as nat) + suffix@,
{
    let mut s = String::new();
    s.append(prefix);
    push_decimal(&mut s, n);
    s.append(middle);
    push_decimal(&mut s, m);
    s.append(suffix);
    s
}

/// Checks `request` against its policy; when it may run, gives it back with
/// its file name reduced to a safe single file name.
pub fn normalize_headless_request(request: &HeadlessExecutionRequest) -> (r: Result<HeadlessExecutionRequest, String>)
    ensures
        match headless_request_error(*request) {
            Some(e) => r is Err && r->Err_0@ == e,
            None => r is Ok && normalized_form(r->Ok_0, *request),
        },
{
    let p = &request.policy;
    let t = trim(request.source.as_str());
    if t.as_str().is_empty() {
        return Err("headless execution request source cannot be empty".to_string());
    }
    if request.opt_level > 3 {
        let mut e = String::new();
        e.append("headless execution opt_level `");
        push_decimal(&mut e, request.opt_level as u128);
        e.append("` must be 0..=3");
        return Err(e);
    }
    let source_bytes = utf8_len_exec(request.source.as_str());
    if source_bytes > p.max_source_bytes {
        return Err(
            message_with_count(
                "headless execution request source is ",
                source_bytes as u128,
                " bytes, exceeding the policy limit of ",
                p.max_source_bytes as u128,
                " bytes",
            ),
        );
    }
    if request.args.len() > p.max_arg_count {
        let mut e = String::new();
        e.append("headless execution request includes ");
        push_decimal(&mut e, request.args.len() as u128);
        e.append(" arg(s), exceeding the policy limit of ");
        push_decimal(&mut e, p.max_arg_count as u128);
        return Err(e);
    }
    let ghost args = strings_view(request.args@);
    let mut total: usize = 0;
    let mut i: usize = 0;
    while i < request.args.len()
        invariant
            i <= request.args.len(),
            args == strings_view(request.args@),
            total == total_arg_bytes(args.take(i as int)),
        decreases request.args.len() - i,
    {
        assert(args.take(i + 1).drop_last() =~= args.take(i as int));
        assert(args[i as int] == request.args@[i as int]@);
        let n = utf8_len_exec(request.args[i].as_str());
        total = total.saturating_add(n);
        i += 1;
    }
    assert(args.take(request.args.len() as int) =~= args);
    if total > p.max_total_arg_bytes {
        return Err(
            message_with_count(
                "headless execution request arguments occupy ",
                total as u128,
                " bytes, exceeding the policy limit of ",
                p.max_total_arg_bytes as u128,
                " bytes",
            ),
        );
    }
    if p.max_runtime_ms == 0 {
        return Err("headless execution policy `max_runtime_ms` must be greater than zero".to_string());
    }
    if p.max_memory_bytes == 0 {
        return Err("headless execution policy `max_memory_bytes` must be greater than zero".to_string());
    }
    if !p.allow_native_backends && request.backend != HeadlessExecutionBackend::Jit {
        let mut e = String::new();
        e.append("headless execution policy only allows the `jit` backend; `");
        e.append(render_headless_backend_label(request.backend));
        e.append("` requires `policy.allow_native_backends=true`");
        return Err(e);
    }
    let mut args_copy: Vec<String> = Vec::new();
    let mut k: usize = 0;
    while k < request.args.len()
        invariant
            k <= request.args.len(),
            strings_view(args_copy@) == strings_view(request.args@).take(k as int),
        decreases request.args.len() - k,
    {
        let ghost before = strings_view(args_copy@);
        let item = copy_str(request.args[k].as_str());
        assert(item@ == strings_view(request.args@)[k as int]);
        args_copy.push(item);
        assert(strings_view(args_copy@) =~= before.push(item@));
        assert(strings_view(args_copy@) =~= strings_view(request.args@).take(k + 1));
        k += 1;
    }
    assert(strings_view(request.args@).take(request.args.len() as int) =~= strings_view(request.args@));
    Ok(
        HeadlessExecutionRequest {
            source: copy_str(request.source.as_str()),
            filename: sanitize_headless_filename(request.filename.as_str()),
            args: args_copy,
            backend: request.backend,
            opt_level: request.opt_level,
            fast: request.fast,
            policy: HeadlessExecutionPolicy {
                max_source_bytes: p.max_source_bytes,
                max_arg_count: p.max_arg_count,
                max_total_arg_bytes: p.max_total_arg_bytes,
                max_runtime_ms: p.max_runtime_ms,
                max_memory_bytes: p.max_memory_bytes,
                allow_native_backends: p.allow_native_backends,
                sandbox_level: copy_str(p.sandbox_level.as_str()),
                deny_network: p.deny_network,
                deny_process_spawn: p.deny_process_spawn,
            },
        },
    )
}

/// The request `agamc exec` makes of `source` (named `filename`): `base`
/// is the default policy, widened to native backends unless the JIT is
/// asked for, with the sandbox options given.
pub fn build_exec_request(
    source: String,
    filename: String,
    backend: Backend,
    opt_level: u8,
    fast: bool,
    args: Vec<String>,
    sandbox_level: String,
    deny_network: bool,
    deny_process_spawn: bool,
    base: HeadlessExecutionPolicy,
) -> (r: HeadlessExecutionRequest)
    ensures
        r.source == source,
        r.filename == filename,
        r.args == args,
        r.backend == headless_of_backend(backend),
        r.opt_level == opt_level,
        r.fast == fast,
        r.policy.max_source_bytes == base.max_source_bytes,
        r.policy.max_arg_count == base.max_arg_count,
        r.policy.max_total_arg_bytes == base.max_total_arg_bytes,
        r.policy.max_runtime_ms == base.max_runtime_ms,
        r.policy.max_memory_bytes == base.max_memory_bytes,
        r.policy.allow_native_backends == (base.allow_native_backends || backend != Backend::Jit),
        r.policy.sandbox_level == sandbox_level,
        r.policy.deny_network == deny_network,
        r.policy.deny_process_spawn == deny_process_spawn,
{
    let mut policy = base;
    if backend != Backend::Jit {
        policy.allow_native_backends = true;
    }
    policy.sandbox_level = sandbox_level;
    policy.deny_network = deny_network;
    policy.deny_process_spawn = deny_process_spawn;
    HeadlessExecutionRequest {
        source,
        filename,
        args,
        backend: backend_to_headless_backend(backend),
        opt_level,
        fast,
        policy,
    }
}

} // verus!

verus! {

/// A request that passed normalization passes it again, and normalizing it
/// again leaves its file name as it is.
pub proof fn lemma_normalized_request_stable(request: HeadlessExecutionRequest, n: HeadlessExecutionRequest)
    requires
        headless_request_error(request) is None,
        normalized_form(n, request),
    ensures
        headless_request_error(n) is None,
        sanitized_headless_filename(n.filename@) == n.filename@,
{
    lemma_sanitized_headless_filename_idempotent(request.filename@);
}

} // verus!

verus! {

pub open spec fn parse_errors_text(messages: Seq<Seq<char>>) -> Seq<char>
    decreases messages.len(),
{
    if messages.len() == 0 {
        Seq::empty()
    } else {
        parse_errors_text(messages.drop_last()) + "\x1b[1;31merror\x1b[0m: "@ + messages.last()
            + "\n"@
    }
}

/// The standard error of a headless run whose source did not parse: one
/// `error:` line per parse error message.
pub fn render_headless_parse_errors(messages: &Vec<String>) -> (r: String)
    ensures
        r@ == parse_errors_text(strings_view(messages@)),
{
    let ghost all = strings_view(messages@);
    let mut out = String::new();
    let mut i: usize = 0;
    assert(all.take(0) =~= Seq::<Seq<char>>::empty());
    while i < messages.len()
        invariant
            i <= messages.len(),
            all == strings_view(messages@),
            out@ == parse_errors_text(all.take(i as int)),
        decreases messages.len() - i,
    {
        assert(all.take(i + 1).drop_last() =~= all.take(i as int));
        assert(all.take(i + 1).last() == messages@[i as int]@);
        out.append("\x1b[1;31merror\x1b[0m: ");
        out.append(messages[i].as_str());
        out.append("\n");
        i += 1;
    }
    assert(all.take(messages.len() as int) =~= all);
    out
}

} // verus!
