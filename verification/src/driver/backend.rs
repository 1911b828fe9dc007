//! Backend selection, LLVM target classification and release tuning.

use vstd::prelude::*;
use crate::text::{
    ascii_lowercase, ascii_lowercase_chars, chars_of, concat2, contains_chars, contains_seq, copy_str,
    decimal, ends_with, ends_with_chars, join_sep, join_strings, occurs_at, opt_string_view,
    push_decimal, strings_view, trim, trim_ws,
};
use vstd::string::StrSliceExecFns;

verus! {

/// Code generation backend.
#[derive(Clone, Copy, Debug, PartialEq, Eq, Structural)]
pub enum Backend {
    Auto,
    C,
    Llvm,
    Jit,
}

/// LLVM link-time optimization mode.
#[derive(Clone, Copy, Debug, PartialEq, Eq, Structural)]
pub enum LtoMode {
    Thin,
    Full,
}

/// Operating-system family of an LLVM target.
#[derive(Clone, Copy, Debug, PartialEq, Eq, Structural)]
pub enum LlvmTargetPlatform {
    Windows,
    Linux,
    MacOs,
    Ios,
    Android,
    Unknown,
}

/// Where an LLVM toolchain runs.
#[derive(Clone, Copy, Debug, PartialEq, Eq, Structural)]
pub enum LlvmToolchain {
    Native,
    Wsl,
}

/// Optimization level actually used: `--fast` forces `3`, otherwise the
/// requested level is clamped to `3`.
pub fn effective_opt_level(opt_level: u8, fast: bool) -> (r: u8)
    ensures
        r == (if fast { 3 } else if opt_level <= 3 { opt_level } else { 3 }),
{
    if fast {
        3
    } else if opt_level < 3 {
        opt_level
    } else {
        3
    }
}

pub open spec fn resolved_backend(
    requested: Backend,
    require_native: bool,
    has_native_clang: bool,
    has_wsl_clang: bool,
    allow_dev_wsl_llvm: bool,
    has_c: bool,
) -> Backend {
    if requested != Backend::Auto {
        requested
    } else if require_native {
        if has_native_clang || (allow_dev_wsl_llvm && has_wsl_clang) {
            Backend::Llvm
        } else if has_c {
            Backend::C
        } else {
            Backend::Jit
        }
    } else if has_native_clang {
        Backend::Llvm
    } else {
        Backend::C
    }
}

/// Pick the backend for `requested`, given which toolchains are present.
/// An explicit backend is kept; `Auto` prefers LLVM, then C; a run
/// (`require_native`) may use WSL clang with the developer opt-in and falls
/// back to the JIT, a build always falls back to C.
pub fn resolve_backend_with_toolchains(
    requested: Backend,
    require_native: bool,
    has_native_clang: bool,
    has_wsl_clang: bool,
    allow_dev_wsl_llvm: bool,
    has_c: bool,
) -> (r: Backend)
    ensures
        r == resolved_backend(
            requested,
            require_native,
            has_native_clang,
            has_wsl_clang,
            allow_dev_wsl_llvm,
            has_c,
        ),
{
    if requested != Backend::Auto {
        return requested;
    }
    let has_run_clang = has_native_clang || (allow_dev_wsl_llvm && has_wsl_clang);
    if require_native {
        if has_run_clang {
            Backend::Llvm
        } else if has_c {
            Backend::C
        } else {
            Backend::Jit
        }
    } else if has_native_clang {
        Backend::Llvm
    } else if has_c {
        Backend::C
    } else {
        Backend::C
    }
}

/// Automatic selection never yields `Auto`; a build never falls back to the
/// JIT and never uses WSL clang; without the opt-in a run ignores WSL clang.
pub proof fn lemma_backend_selection(
    require_native: bool,
    has_native_clang: bool,
    has_wsl_clang: bool,
    allow_dev_wsl_llvm: bool,
    has_c: bool,
)
    ensures
        resolved_backend(
            Backend::Auto,
            require_native,
            has_native_clang,
            has_wsl_clang,
            allow_dev_wsl_llvm,
            has_c,
        ) != Backend::Auto,
        !require_native ==> resolved_backend(
            Backend::Auto,
            require_native,
            has_native_clang,
            has_wsl_clang,
            allow_dev_wsl_llvm,
            has_c,
        ) != Backend::Jit,
        !require_native ==> resolved_backend(
            Backend::Auto,
            require_native,
            has_native_clang,
            has_wsl_clang,
            allow_dev_wsl_llvm,
            has_c,
        ) == resolved_backend(
            Backend::Auto,
            require_native,
            has_native_clang,
            false,
            false,
            has_c,
        ),
        !allow_dev_wsl_llvm ==> resolved_backend(
            Backend::Auto,
            require_native,
            has_native_clang,
            has_wsl_clang,
            allow_dev_wsl_llvm,
            has_c,
        ) == resolved_backend(
            Backend::Auto,
            require_native,
            has_native_clang,
            false,
            false,
            has_c,
        ),
{
}

/// Command-line spelling of a backend.
pub open spec fn backend_cli_text(backend: Backend) -> Seq<char> {
    match backend {
        Backend::Auto => "auto"@,
        Backend::C => "c"@,
        Backend::Llvm => "llvm"@,
        Backend::Jit => "jit"@,
    }
}

/// Command-line spelling of a backend.
pub fn render_backend_cli_value(backend: Backend) -> (r: &'static str)
    ensures
        r@ == backend_cli_text(backend),
{
    match backend {
        Backend::Auto => "auto",
        Backend::C => "c",
        Backend::Llvm => "llvm",
        Backend::Jit => "jit",
    }
}

/// Command-line spelling of an LTO mode.
pub fn render_lto_cli_value(mode: LtoMode) -> (r: &'static str)
    ensures
        r@ == (match mode {
            LtoMode::Thin => "thin"@,
            LtoMode::Full => "full"@,
        }),
{
    match mode {
        LtoMode::Thin => "thin",
        LtoMode::Full => "full",
    }
}

/// Clang flag for an LTO mode.
pub fn lto_flag(mode: LtoMode) -> (r: &'static str)
    ensures
        r@ == (match mode {
            LtoMode::Thin => "-flto=thin"@,
            LtoMode::Full => "-flto=full"@,
        }),
{
    match mode {
        LtoMode::Thin => "-flto=thin",
        LtoMode::Full => "-flto=full",
    }
}

/// Number of workers for `request_count` independent requests on a machine
/// offering `available` parallel threads (at least one worker).
pub fn request_parallelism(request_count: usize, available: usize) -> (r: usize)
    ensures
        r == (if request_count <= 1 {
            1
        } else if available <= 1 {
            1
        } else if request_count <= available {
            request_count
        } else {
            available
        }),
{
    if request_count <= 1 {
        return 1;
    }
    let available = if available >= 1 { available } else { 1 };
    if request_count <= available {
        request_count
    } else {
        available
    }
}

/// Workers used for parallel builds.
pub fn build_request_parallelism(request_count: usize, available: usize) -> (r: usize)
    ensures
        r == request_parallelism_spec(request_count, available),
{
    request_parallelism(request_count, available)
}

/// Workers used for parallel checks.
pub fn check_request_parallelism(request_count: usize, available: usize) -> (r: usize)
    ensures
        r == request_parallelism_spec(request_count, available),
{
    request_parallelism(request_count, available)
}

pub open spec fn request_parallelism_spec(request_count: usize, available: usize) -> usize {
    if request_count <= 1 {
        1
    } else if available <= 1 {
        1
    } else if request_count <= available {
        request_count
    } else {
        available
    }
}

/// Parallelism is at least one and never exceeds the number of requests
/// (when there is more than one) nor the threads available (when any).
pub proof fn lemma_request_parallelism_bounds(request_count: usize, available: usize)
    ensures
        1 <= request_parallelism_spec(request_count, available),
        request_count >= 1 ==> request_parallelism_spec(request_count, available) <= request_count,
        available >= 1 ==> request_parallelism_spec(request_count, available) <= available,
{
}

/// With `Auto`, a usable clang always wins: LLVM is chosen whenever a
/// native clang exists, or, for a run, WSL clang with the developer opt-in.
/// The C backend is chosen only when no usable clang exists (and, for a run,
/// a C compiler does), and the JIT only for a run with neither. An explicit
/// backend is kept as requested.
pub proof fn lemma_auto_prefers_llvm(
    requested: Backend,
    require_native: bool,
    has_native_clang: bool,
    has_wsl_clang: bool,
    allow_dev_wsl_llvm: bool,
    has_c: bool,
)
    ensures
        ({
            let r = resolved_backend(
                requested,
                require_native,
                has_native_clang,
                has_wsl_clang,
                allow_dev_wsl_llvm,
                has_c,
            );
            let usable_clang = has_native_clang || (require_native && allow_dev_wsl_llvm
                && has_wsl_clang);
            &&& requested != Backend::Auto ==> r == requested
            &&& requested == Backend::Auto && usable_clang ==> r == Backend::Llvm
            &&& requested == Backend::Auto && r == Backend::C ==> !usable_clang && (has_c
                || !require_native)
            &&& requested == Backend::Auto && r == Backend::Jit ==> require_native && !usable_clang
                && !has_c
            &&& requested == Backend::Auto && !usable_clang && (has_c || !require_native) ==> r
                == Backend::C
        }),
{
}

/// Whether linking for `platform` needs `-lm`.
pub fn llvm_math_link_required(platform: LlvmTargetPlatform) -> (r: bool)
    ensures
        r == (platform != LlvmTargetPlatform::Windows),
{
    !matches!(platform, LlvmTargetPlatform::Windows)
}

} // verus!

verus! {

/// Platform of an LLVM target triple (case-insensitive, surrounding
/// whitespace ignored); no triple or an empty one means the host.
pub open spec fn classify_platform(target: Option<Seq<char>>, host: LlvmTargetPlatform) -> LlvmTargetPlatform {
    match target {
        None => host,
        Some(raw) => {
            let t = ascii_lowercase(trim_ws(raw));
            if t.len() == 0 {
                host
            } else if contains_seq(t, "android"@) {
                LlvmTargetPlatform::Android
            } else if contains_seq(t, "apple-ios"@) || ends_with(t, "-ios"@) || contains_seq(
                t,
                "-ios-"@,
            ) || contains_seq(t, "iphoneos"@) {
                LlvmTargetPlatform::Ios
            } else if contains_seq(t, "apple-darwin"@) || contains_seq(t, "macos"@) || contains_seq(
                t,
                "darwin"@,
            ) {
                LlvmTargetPlatform::MacOs
            } else if contains_seq(t, "windows"@) || contains_seq(t, "mingw"@) || contains_seq(
                t,
                "msvc"@,
            ) {
                LlvmTargetPlatform::Windows
            } else if contains_seq(t, "linux"@) {
                LlvmTargetPlatform::Linux
            } else {
                LlvmTargetPlatform::Unknown
            }
        },
    }
}

pub open spec fn opt_view(s: Option<&str>) -> Option<Seq<char>> {
    match s {
        Some(x) => Some(x@),
        None => None,
    }
}

fn has(t: &Vec<char>, p: &str) -> (r: bool)
    ensures
        r == contains_seq(t@, p@),
{
    let pv = chars_of(p);
    contains_chars(t, &pv)
}

/// Classify an LLVM target triple by platform; `host` is the platform of
/// the machine running the compiler.
pub fn classify_llvm_target_platform(target: Option<&str>, host: LlvmTargetPlatform) -> (r:
    LlvmTargetPlatform)
    ensures
        r == classify_platform(opt_view(target), host),
{
    match target {
        None => host,
        Some(raw) => {
            let trimmed = trim(raw);
            let tv = chars_of(trimmed.as_str());
            let t = ascii_lowercase_chars(&tv);
            if t.len() == 0 {
                return host;
            }
            if has(&t, "android") {
                return LlvmTargetPlatform::Android;
            }
            let ios_suffix = chars_of("-ios");
            if has(&t, "apple-ios") || ends_with_chars(&t, &ios_suffix) || has(&t, "-ios-") || has(
                &t,
                "iphoneos",
            ) {
                return LlvmTargetPlatform::Ios;
            }
            if has(&t, "apple-darwin") || has(&t, "macos") || has(&t, "darwin") {
                return LlvmTargetPlatform::MacOs;
            }
            if has(&t, "windows") || has(&t, "mingw") || has(&t, "msvc") {
                return LlvmTargetPlatform::Windows;
            }
            if has(&t, "linux") {
                return LlvmTargetPlatform::Linux;
            }
            LlvmTargetPlatform::Unknown
        },
    }
}

/// How a non-empty triple is classified, by the platform names it holds
/// (after trimming and lower-casing): `android` first, then the iOS names,
/// the macOS names and the Windows names; a triple naming none of those
/// but `linux` is Linux, and only one naming none of them at all is
/// `Unknown`. Without a triple, or with an empty one, the host's platform
/// is used.
pub proof fn lemma_classify_by_platform_names(raw: Seq<char>, host: LlvmTargetPlatform)
    ensures
        ({
            let t = ascii_lowercase(trim_ws(raw));
            let r = classify_platform(Some(raw), host);
            let android = contains_seq(t, "android"@);
            let ios = contains_seq(t, "apple-ios"@) || ends_with(t, "-ios"@) || contains_seq(
                t,
                "-ios-"@,
            ) || contains_seq(t, "iphoneos"@);
            let mac = contains_seq(t, "apple-darwin"@) || contains_seq(t, "macos"@)
                || contains_seq(t, "darwin"@);
            let windows = contains_seq(t, "windows"@) || contains_seq(t, "mingw"@) || contains_seq(
                t,
                "msvc"@,
            );
            let linux = contains_seq(t, "linux"@);
            &&& t.len() == 0 ==> r == host
            &&& t.len() > 0 && android ==> r == LlvmTargetPlatform::Android
            &&& t.len() > 0 && !android && ios ==> r == LlvmTargetPlatform::Ios
            &&& t.len() > 0 && !android && !ios && mac ==> r == LlvmTargetPlatform::MacOs
            &&& t.len() > 0 && !android && !ios && !mac && windows ==> r
                == LlvmTargetPlatform::Windows
            &&& t.len() > 0 && !android && !ios && !mac && !windows && linux ==> r
                == LlvmTargetPlatform::Linux
            &&& t.len() > 0 && r == LlvmTargetPlatform::Unknown ==> !android && !ios && !mac
                && !windows && !linux
        }),
        classify_platform(None, host) == host,
{
}

/// File extension of native binaries for the target: `exe` for Windows.
pub fn native_binary_extension(target: Option<&str>, host: LlvmTargetPlatform) -> (r: Option<
    &'static str,
>)
    ensures
        classify_platform(opt_view(target), host) == LlvmTargetPlatform::Windows ==> r is Some
            && r->0@ == "exe"@,
        classify_platform(opt_view(target), host) != LlvmTargetPlatform::Windows ==> r is None,
{
    match classify_llvm_target_platform(target, host) {
        LlvmTargetPlatform::Windows => Some("exe"),
        _ => None,
    }
}

} // verus!

verus! {

/// Target and optimization choices for an LLVM build.
#[derive(Clone, Debug)]
pub struct ReleaseTuning {
    pub target: Option<String>,
    pub native_cpu: bool,
    pub lto: Option<LtoMode>,
    pub pgo_generate: Option<String>,
    pub pgo_use: Option<String>,
}

impl Default for ReleaseTuning {
    fn default() -> (r: Self)
        ensures
            r.target is None,
            !r.native_cpu,
            r.lto is None,
            r.pgo_generate is None,
            r.pgo_use is None,
    {
        ReleaseTuning { target: None, native_cpu: false, lto: None, pgo_generate: None, pgo_use: None }
    }
}

/// Resolved LLVM target: triple, platform, sysroot and Apple SDK root.
#[derive(Clone, Debug)]
pub struct LlvmTargetConfig {
    pub target_triple: Option<String>,
    pub platform: LlvmTargetPlatform,
    pub sysroot: Option<String>,
    pub sdk_root: Option<String>,
}

pub open spec fn lto_flag_text(mode: LtoMode) -> Seq<char> {
    match mode {
        LtoMode::Thin => "-flto=thin"@,
        LtoMode::Full => "-flto=full"@,
    }
}

pub open spec fn push_if(args: Seq<Seq<char>>, cond: bool, arg: Seq<char>) -> Seq<Seq<char>> {
    if cond {
        args.push(arg)
    } else {
        args
    }
}

/// Arguments handed to clang to compile `ll_path` into `output`.
pub open spec fn clang_args(
    ll_path: Seq<char>,
    output: Seq<char>,
    opt_level: u8,
    tuning: ReleaseTuning,
    config: LlvmTargetConfig,
) -> Seq<Seq<char>> {
    let a0 = seq![ll_path, "-o"@, output, "-O"@ + decimal(opt_level as nat)];
    let a1 = push_if(
        a0,
        config.target_triple is Some,
        "--target="@ + config.target_triple->0@,
    );
    let a2 = push_if(a1, config.sysroot is Some, "--sysroot="@ + config.sysroot->0@);
    let apple = config.platform == LlvmTargetPlatform::MacOs || config.platform
        == LlvmTargetPlatform::Ios;
    let a3 = push_if(
        push_if(a2, config.sdk_root is Some && apple, "-isysroot"@),
        config.sdk_root is Some && apple,
        config.sdk_root->0@,
    );
    let a4 = push_if(a3, tuning.lto is Some, lto_flag_text(tuning.lto->0));
    let a5 = push_if(
        a4,
        tuning.pgo_generate is Some,
        "-fprofile-generate="@ + tuning.pgo_generate->0@,
    );
    let a6 = push_if(a5, tuning.pgo_use is Some, "-fprofile-use="@ + tuning.pgo_use->0@);
    let a7 = push_if(push_if(a6, tuning.native_cpu, "-march=native"@), tuning.native_cpu, "-mtune=native"@);
    push_if(a7, config.platform != LlvmTargetPlatform::Windows, "-lm"@)
}

fn push_arg(args: &mut Vec<String>, arg: String)
    ensures
        strings_view(final(args)@) == strings_view(old(args)@).push(arg@),
{
    args.push(arg);
    assert(strings_view(args@) =~= strings_view(old(args)@).push(arg@));
}

/// Clang arguments for a native LLVM build of `ll_path` into `output`.
pub fn build_native_llvm_clang_args(
    ll_path: &str,
    output: &str,
    opt_level: u8,
    tuning: &ReleaseTuning,
    target_config: &LlvmTargetConfig,
) -> (r: Vec<String>)
    ensures
        strings_view(r@) == clang_args(ll_path@, output@, opt_level, *tuning, *target_config),
{
    let mut args: Vec<String> = Vec::new();
    push_arg(&mut args, copy_str(ll_path));
    push_arg(&mut args, copy_str("-o"));
    push_arg(&mut args, copy_str(output));
    let mut opt = copy_str("-O");
    push_decimal(&mut opt, opt_level as u128);
    push_arg(&mut args, opt);
    assert(strings_view(args@) =~= seq![ll_path@, "-o"@, output@, "-O"@ + decimal(opt_level as nat)]);
    if let Some(target) = &target_config.target_triple {
        push_arg(&mut args, concat2("--target=", target.as_str()));
    }
    if let Some(sysroot) = &target_config.sysroot {
        push_arg(&mut args, concat2("--sysroot=", sysroot.as_str()));
    }
    if let Some(sdk_root) = &target_config.sdk_root {
        if matches!(target_config.platform, LlvmTargetPlatform::MacOs | LlvmTargetPlatform::Ios) {
            push_arg(&mut args, copy_str("-isysroot"));
            push_arg(&mut args, copy_str(sdk_root.as_str()));
        }
    }
    if let Some(lto) = tuning.lto {
        push_arg(&mut args, copy_str(lto_flag(lto)));
    }
    if let Some(dir) = &tuning.pgo_generate {
        push_arg(&mut args, concat2("-fprofile-generate=", dir.as_str()));
    }
    if let Some(profile) = &tuning.pgo_use {
        push_arg(&mut args, concat2("-fprofile-use=", profile.as_str()));
    }
    if tuning.native_cpu {
        push_arg(&mut args, copy_str("-march=native"));
        push_arg(&mut args, copy_str("-mtune=native"));
    }
    if llvm_math_link_required(target_config.platform) {
        push_arg(&mut args, copy_str("-lm"));
    }
    args
}

/// An argument is shown as is, or in double quotes when it holds a space.
pub open spec fn shell_quoted(arg: Seq<char>) -> Seq<char> {
    if arg.contains(' ') {
        "\""@ + arg + "\""@
    } else {
        arg
    }
}

/// `command` followed by its arguments, as one might type it in a shell.
pub fn render_shellish_command(command: &str, args: &Vec<String>) -> (r: String)
    ensures
        r@ == command@ + " "@ + join_sep(
            strings_view(args@).map_values(|a: Seq<char>| shell_quoted(a)),
            " "@,
        ),
{
    let mut rendered: Vec<String> = Vec::new();
    let mut i: usize = 0;
    let ghost quoted = strings_view(args@).map_values(|a: Seq<char>| shell_quoted(a));
    while i < args.len()
        invariant
            i <= args.len(),
            quoted == strings_view(args@).map_values(|a: Seq<char>| shell_quoted(a)),
            strings_view(rendered@) == quoted.take(i as int),
        decreases args.len() - i,
    {
        let arg = args[i].as_str();
        let v = chars_of(arg);
        let space = chars_of(" ");
        let has_space = contains_chars(&v, &space);
        proof {
            reveal_strlit(" ");
            if has_space {
                let k = choose|k: int| occurs_at(v@, space@, k);
                assert(v@[k] == ' ') by {
                    assert(v@.subrange(k, k + 1)[0] == ' ');
                }
            }
            if arg@.contains(' ') {
                let k = choose|k: int| 0 <= k < arg@.len() && arg@[k] == ' ';
                assert(v@.subrange(k, k + 1) =~= space@);
                assert(occurs_at(v@, space@, k));
            }
        }
        let item = if has_space {
            let mut q = copy_str("\"");
            q.append(arg);
            q.append("\"");
            q
        } else {
            copy_str(arg)
        };
        push_arg(&mut rendered, item);
        assert(quoted.take(i + 1) =~= quoted.take(i as int).push(shell_quoted(args@[i as int]@)));
        i += 1;
    }
    assert(quoted.take(args.len() as int) =~= quoted);
    let joined = join_strings(&rendered, " ");
    let mut out = copy_str(command);
    out.append(" ");
    out.append(joined.as_str());
    out
}

} // verus!

verus! {

pub open spec fn fast_with_target_message() -> Seq<char> {
    "`--fast`/native CPU tuning is only valid for host-native LLVM builds; remove `--fast` when using `--target`"@
}

pub open spec fn android_sysroot_message() -> Seq<char> {
    "Android LLVM targets require a sysroot; set `AGAM_LLVM_SYSROOT` or `ANDROID_NDK_HOME`/`ANDROID_NDK_ROOT`"@
}

pub open spec fn ios_sdk_message() -> Seq<char> {
    "iOS LLVM targets require an Apple SDK root; set `AGAM_LLVM_SDKROOT` or `SDKROOT`"@
}

pub open spec fn tuning_needs_llvm_message() -> Seq<char> {
    "Phase 14/15 LLVM tuning flags (`--target`, `--lto`, `--pgo-generate`, `--pgo-use`) currently require `--backend llvm`"@
}

pub open spec fn pgo_conflict_message() -> Seq<char> {
    "use either `--pgo-generate` or `--pgo-use`, not both in one build"@
}

/// What validating a resolved LLVM target gives.
pub open spec fn target_config_check(tuning: ReleaseTuning, config: LlvmTargetConfig) -> Result<(), Seq<char>> {
    if tuning.native_cpu && config.target_triple is Some {
        Err(fast_with_target_message())
    } else if config.platform == LlvmTargetPlatform::Android && config.target_triple is Some
        && config.sysroot is None {
        Err(android_sysroot_message())
    } else if config.platform == LlvmTargetPlatform::Ios && config.target_triple is Some
        && config.sdk_root is None {
        Err(ios_sdk_message())
    } else {
        Ok(())
    }
}

/// What validating release tuning for `backend` gives.
pub open spec fn release_tuning_check(backend: Backend, tuning: ReleaseTuning, config: LlvmTargetConfig) -> Result<(), Seq<char>> {
    let release = tuning.lto is Some || tuning.pgo_generate is Some || tuning.pgo_use is Some;
    let target = tuning.target is Some;
    if !release && !target {
        target_config_check(tuning, config)
    } else if backend != Backend::Llvm {
        Err(tuning_needs_llvm_message())
    } else if tuning.pgo_generate is Some && tuning.pgo_use is Some {
        Err(pgo_conflict_message())
    } else {
        target_config_check(tuning, config)
    }
}

pub open spec fn result_matches(r: Result<(), String>, s: Result<(), Seq<char>>) -> bool {
    match r {
        Ok(_) => s is Ok,
        Err(e) => s is Err && s->Err_0 == e@,
    }
}

/// Check that the resolved LLVM target can be built: native CPU tuning is
/// host-only, Android needs a sysroot and iOS an SDK root.
pub fn validate_llvm_target_config(tuning: &ReleaseTuning, target_config: &LlvmTargetConfig) -> (r:
    Result<(), String>)
    ensures
        result_matches(r, target_config_check(*tuning, *target_config)),
{
    if tuning.native_cpu && target_config.target_triple.is_some() {
        return Err(copy_str(
            "`--fast`/native CPU tuning is only valid for host-native LLVM builds; remove `--fast` when using `--target`",
        ));
    }
    match target_config.platform {
        LlvmTargetPlatform::Android => {
            if target_config.target_triple.is_some() && target_config.sysroot.is_none() {
                return Err(copy_str(
                    "Android LLVM targets require a sysroot; set `AGAM_LLVM_SYSROOT` or `ANDROID_NDK_HOME`/`ANDROID_NDK_ROOT`",
                ));
            }
        },
        LlvmTargetPlatform::Ios => {
            if target_config.target_triple.is_some() && target_config.sdk_root.is_none() {
                return Err(copy_str(
                    "iOS LLVM targets require an Apple SDK root; set `AGAM_LLVM_SDKROOT` or `SDKROOT`",
                ));
            }
        },
        _ => {},
    }
    Ok(())
}

/// Check the release tuning flags against the backend and the LLVM target.
pub fn validate_release_tuning(
    backend: Backend,
    tuning: &ReleaseTuning,
    target_config: &LlvmTargetConfig,
) -> (r: Result<(), String>)
    ensures
        result_matches(r, release_tuning_check(backend, *tuning, *target_config)),
{
    let requested_release_tuning = tuning.lto.is_some() || tuning.pgo_generate.is_some()
        || tuning.pgo_use.is_some();
    let requested_target = tuning.target.is_some();
    if !requested_release_tuning && !requested_target {
        return validate_llvm_target_config(tuning, target_config);
    }
    if backend != Backend::Llvm && (requested_release_tuning || requested_target) {
        return Err(copy_str(
            "Phase 14/15 LLVM tuning flags (`--target`, `--lto`, `--pgo-generate`, `--pgo-use`) currently require `--backend llvm`",
        ));
    }
    if tuning.pgo_generate.is_some() && tuning.pgo_use.is_some() {
        return Err(copy_str("use either `--pgo-generate` or `--pgo-use`, not both in one build"));
    }
    validate_llvm_target_config(tuning, target_config)
}

/// The target triple used for LLVM: the requested one, else the
/// `AGAM_LLVM_TARGET_TRIPLE` value when it is not blank; trimmed.
pub open spec fn target_triple_choice(requested: Option<Seq<char>>, from_env: Option<Seq<char>>) -> Option<Seq<char>> {
    match requested {
        Some(t) => Some(trim_ws(t)),
        None => match from_env {
            Some(e) => if trim_ws(e).len() > 0 {
                Some(trim_ws(e))
            } else {
                None
            },
            None => None,
        },
    }
}

pub fn llvm_target_triple(requested: Option<&str>, from_env: Option<&str>) -> (r: Option<String>)
    ensures
        opt_string_view(r) == target_triple_choice(opt_view(requested), opt_view(from_env)),
{
    match requested {
        Some(t) => Some(trim(t)),
        None => match from_env {
            Some(e) => {
                let t = trim(e);
                if t.as_str().unicode_len() > 0 {
                    Some(t)
                } else {
                    None
                }
            },
            None => None,
        },
    }
}

/// Assemble the LLVM target: the platform of `target_triple`; for Android
/// the Android sysroot, otherwise the `AGAM_LLVM_SYSROOT` value; the SDK
/// root from `AGAM_LLVM_SDKROOT`, else `SDKROOT`.
pub fn resolve_llvm_target_config(
    target_triple: Option<String>,
    host: LlvmTargetPlatform,
    android_sysroot: Option<String>,
    env_sysroot: Option<String>,
    env_sdkroot: Option<String>,
    sdkroot: Option<String>,
) -> (r: LlvmTargetConfig)
    ensures
        r.target_triple == target_triple,
        r.platform == classify_platform(opt_string_view(target_triple), host),
        r.platform == LlvmTargetPlatform::Android ==> r.sysroot == android_sysroot,
        r.platform != LlvmTargetPlatform::Android ==> r.sysroot == env_sysroot,
        r.sdk_root == (if env_sdkroot is Some { env_sdkroot } else { sdkroot }),
{
    let platform = match &target_triple {
        Some(t) => classify_llvm_target_platform(Some(t.as_str()), host),
        None => classify_llvm_target_platform(None, host),
    };
    let sysroot = if platform == LlvmTargetPlatform::Android { android_sysroot } else { env_sysroot };
    let sdk_root = if env_sdkroot.is_some() { env_sdkroot } else { sdkroot };
    LlvmTargetConfig { target_triple, platform, sysroot, sdk_root }
}

} // verus!

verus! {

/// The backend an environment prefers, unless that is the JIT and the
/// command cannot use it.
pub open spec fn environment_backend(preferred: Option<Backend>, allow_jit: bool) -> Option<Backend> {
    match preferred {
        Some(Backend::Jit) => if allow_jit {
            Some(Backend::Jit)
        } else {
            None
        },
        Some(b) => Some(b),
        None => None,
    }
}

/// The backend a workspace environment asks for (`preferred`), unless it is
/// the JIT and the command cannot use it.
pub fn requested_backend_from_environment(preferred: Option<Backend>, allow_jit: bool) -> (r: Option<Backend>)
    ensures
        r == environment_backend(preferred, allow_jit),
{
    match preferred {
        Some(Backend::Jit) if !allow_jit => None,
        Some(b) => Some(b),
        None => None,
    }
}

/// The backend a command runs with: the one given on the command line, else
/// the one its environment prefers (`environment_preferred`, when an
/// environment was selected), else LLVM when a target was named, else
/// automatic selection.
pub fn requested_backend_for_command(
    cli_backend: Backend,
    environment_preferred: Option<Option<Backend>>,
    allow_jit: bool,
    target: Option<&str>,
) -> (r: Backend)
    ensures
        r == (if cli_backend != Backend::Auto {
            cli_backend
        } else if environment_preferred matches Some(p) && environment_backend(p, allow_jit) is Some {
            environment_backend(environment_preferred->0, allow_jit)->0
        } else if target is Some {
            Backend::Llvm
        } else {
            Backend::Auto
        }),
{
    if cli_backend != Backend::Auto {
        return cli_backend;
    }
    if let Some(preferred) = environment_preferred {
        if let Some(backend) = requested_backend_from_environment(preferred, allow_jit) {
            return backend;
        }
    }
    if target.is_some() {
        return Backend::Llvm;
    }
    Backend::Auto
}

} // verus!
