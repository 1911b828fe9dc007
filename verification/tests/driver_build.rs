use agam::driver::requests::{cached_build_output_path, CacheArtifactKind};
use agam::driver::backend::{
    build_native_llvm_clang_args, classify_llvm_target_platform, effective_opt_level,
    native_binary_extension, render_backend_cli_value, request_parallelism,
    requested_backend_for_command, requested_backend_from_environment,
    resolve_backend_with_toolchains, resolve_llvm_target_config, validate_release_tuning, Backend,
    LlvmTargetConfig, LlvmTargetPlatform, LtoMode, ReleaseTuning,
};
use agam::driver::call_cache::{build_feature_signature, CallCacheSelection};
use agam::driver::paths::{default_native_binary_output_path, file_name};
use agam::driver::requests::{
    default_build_output_path, default_package_output_path, resolve_build_requests, BuildRequest,
};

fn host_config(target: Option<String>) -> LlvmTargetConfig {
    resolve_llvm_target_config(target, LlvmTargetPlatform::Linux, None, None, None, None)
}

#[test]
fn test_resolve_build_requests_rejects_explicit_output_for_multiple_inputs() {
    let files: Vec<Result<String, String>> = vec![Ok("a.agam".to_string()), Ok("b.agam".to_string())];
    let error = resolve_build_requests(files, Some("out.exe".to_string()), None, LlvmTargetPlatform::Linux)
        .expect_err("multiple inputs should reject one explicit output");
    assert!(error.contains("`--output` only supports a single input file"));
}

#[test]
fn resolve_build_requests_requires_an_input() {
    let error = resolve_build_requests(Vec::new(), None, None, LlvmTargetPlatform::Linux)
        .expect_err("no input should fail");
    assert_eq!(error, "at least one source file is required");
}

#[test]
fn resolve_build_requests_builds_each_entry_once_next_to_itself() {
    let files: Vec<Result<String, String>> = vec![
        Ok("src/main.agam".to_string()),
        Ok("tools/gen.agam".to_string()),
        Ok("src/main.agam".to_string()),
    ];
    let requests = resolve_build_requests(files, None, Some("x86_64-pc-windows-msvc"), LlvmTargetPlatform::Linux)
        .expect("requests");
    assert_eq!(
        requests,
        vec![
            BuildRequest { file: "src/main.agam".to_string(), output: "src/main.exe".to_string() },
            BuildRequest { file: "tools/gen.agam".to_string(), output: "tools/gen.exe".to_string() },
        ]
    );
}

#[test]
fn resolve_build_requests_reports_the_first_unresolved_input() {
    let files: Vec<Result<String, String>> = vec![
        Ok("a.agam".to_string()),
        Err("no entry for `b`".to_string()),
        Err("no entry for `c`".to_string()),
    ];
    let error = resolve_build_requests(files, None, None, LlvmTargetPlatform::Linux).expect_err("unresolved");
    assert_eq!(error, "no entry for `b`");
}

#[test]
fn resolve_build_requests_keeps_an_explicit_output_for_one_input() {
    let files: Vec<Result<String, String>> = vec![Ok("a.agam".to_string())];
    let requests = resolve_build_requests(files, Some("bin/app".to_string()), None, LlvmTargetPlatform::Linux)
        .expect("one input");
    assert_eq!(requests, vec![BuildRequest { file: "a.agam".to_string(), output: "bin/app".to_string() }]);
    let failing: Vec<Result<String, String>> = vec![Err("missing".to_string())];
    assert_eq!(
        resolve_build_requests(failing, Some("bin/app".to_string()), None, LlvmTargetPlatform::Linux),
        Err("missing".to_string())
    );
}

#[test]
fn test_build_feature_signature_includes_cache_generation() {
    let signature = build_feature_signature(
        Backend::Llvm,
        &CallCacheSelection::default(),
        false,
        None,
        "clang",
        &host_config(None),
    );
    assert!(signature.contains("build_cache=compiler-build-v2"));
}

#[test]
fn build_feature_signature_records_llvm_toolchain_and_target() {
    let signature = build_feature_signature(
        Backend::Llvm,
        &CallCacheSelection::default(),
        true,
        None,
        "clang;x",
        &host_config(Some("aarch64-linux-android21".to_string())),
    );
    assert!(signature.contains(";llvm_toolchain=missing"));
    assert!(signature.contains(";llvm_wsl_allowed=true"));
    assert!(signature.contains(";llvm_clang=clang_x"));
    assert!(signature.contains(";llvm_target=aarch64-linux-android21"));
    assert!(signature.contains(";llvm_sysroot=none"));
    let c_signature = build_feature_signature(
        Backend::C,
        &CallCacheSelection::default(),
        true,
        None,
        "clang",
        &host_config(None),
    );
    assert!(!c_signature.contains("llvm_toolchain"));
}

#[test]
fn test_auto_run_backend_falls_back_to_jit_without_external_toolchains() {
    let resolved = resolve_backend_with_toolchains(Backend::Auto, true, false, false, false, false);
    assert_eq!(resolved, Backend::Jit);
}

#[test]
fn test_auto_build_backend_keeps_aot_fallback_without_external_toolchains() {
    let resolved = resolve_backend_with_toolchains(Backend::Auto, false, false, false, false, false);
    assert_eq!(resolved, Backend::C);
}

#[test]
fn test_auto_run_backend_ignores_wsl_llvm_without_dev_opt_in() {
    let resolved = resolve_backend_with_toolchains(Backend::Auto, true, false, true, false, false);
    assert_eq!(resolved, Backend::Jit);
}

#[test]
fn test_auto_run_backend_accepts_wsl_llvm_with_dev_opt_in() {
    let resolved = resolve_backend_with_toolchains(Backend::Auto, true, false, true, true, false);
    assert_eq!(resolved, Backend::Llvm);
}

#[test]
fn test_auto_build_backend_does_not_treat_wsl_llvm_as_native_aot_toolchain() {
    let resolved = resolve_backend_with_toolchains(Backend::Auto, false, false, true, true, false);
    assert_eq!(resolved, Backend::C);
}

#[test]
fn explicit_backends_are_kept_and_native_clang_wins() {
    assert_eq!(resolve_backend_with_toolchains(Backend::Jit, false, true, true, true, true), Backend::Jit);
    assert_eq!(resolve_backend_with_toolchains(Backend::Auto, false, true, false, false, true), Backend::Llvm);
    assert_eq!(resolve_backend_with_toolchains(Backend::Auto, true, false, false, false, true), Backend::C);
}

#[test]
fn test_default_native_binary_output_path_uses_target_platform_extension() {
    let windows = default_native_binary_output_path(
        "examples/hello.agam",
        Some("x86_64-pc-windows-msvc"),
        LlvmTargetPlatform::Linux,
    );
    let linux = default_native_binary_output_path(
        "examples/hello.agam",
        Some("x86_64-unknown-linux-gnu"),
        LlvmTargetPlatform::Linux,
    );
    assert_eq!(file_name(&windows).as_deref(), Some("hello.exe"));
    assert_eq!(file_name(&linux).as_deref(), Some("hello"));
    assert_eq!(windows, "examples/hello.exe");
    assert_eq!(linux, "examples/hello");
}

#[test]
fn default_build_and_package_outputs_use_the_workspace_dist_directory() {
    assert_eq!(
        default_build_output_path("proj", true, "app", "proj/src/main.agam", Some("x86_64-pc-windows-msvc"), LlvmTargetPlatform::Linux),
        "proj/dist/app.exe"
    );
    assert_eq!(
        default_build_output_path("proj", false, "app", "proj/src/main.agam", None, LlvmTargetPlatform::Linux),
        "proj/src/main"
    );
    assert_eq!(
        default_package_output_path("proj", true, "app", "unused".to_string()),
        "proj/dist/app.agpkg.json"
    );
    assert_eq!(
        default_package_output_path("proj", false, "app", "proj/src/main.agpkg.json".to_string()),
        "proj/src/main.agpkg.json"
    );
}

#[test]
fn test_native_llvm_clang_args_include_cross_target_and_sysroot() {
    let tuning = ReleaseTuning {
        target: Some("aarch64-linux-android21".into()),
        native_cpu: false,
        lto: Some(LtoMode::Thin),
        pgo_generate: None,
        pgo_use: None,
    };
    let target_config = LlvmTargetConfig {
        target_triple: tuning.target.clone(),
        platform: LlvmTargetPlatform::Android,
        sysroot: Some("/ndk/sysroot".to_string()),
        sdk_root: None,
    };
    let args = build_native_llvm_clang_args("hello.ll", "hello", 3, &tuning, &target_config);
    assert!(args.iter().any(|arg| arg == "--target=aarch64-linux-android21"));
    assert!(args.iter().any(|arg| arg == "--sysroot=/ndk/sysroot"));
    assert!(args.iter().any(|arg| arg == "-flto=thin"));
    assert!(args.iter().any(|arg| arg == "-lm"));
}

#[test]
fn test_native_llvm_clang_args_omit_math_library_on_windows() {
    let tuning = ReleaseTuning {
        target: Some("x86_64-pc-windows-msvc".into()),
        native_cpu: false,
        lto: None,
        pgo_generate: None,
        pgo_use: None,
    };
    let target_config = LlvmTargetConfig {
        target_triple: tuning.target.clone(),
        platform: LlvmTargetPlatform::Windows,
        sysroot: None,
        sdk_root: None,
    };
    let args = build_native_llvm_clang_args("hello.ll", "hello.exe", 2, &tuning, &target_config);
    assert!(!args.iter().any(|arg| arg == "-lm"));
}

#[test]
fn test_validate_release_tuning_rejects_target_for_non_llvm_backend() {
    let tuning = ReleaseTuning {
        target: Some("x86_64-unknown-linux-gnu".into()),
        native_cpu: false,
        lto: None,
        pgo_generate: None,
        pgo_use: None,
    };
    let config = host_config(tuning.target.clone());
    let error = validate_release_tuning(Backend::C, &tuning, &config).expect_err("target should require llvm");
    assert!(error.contains("--target"));
}

#[test]
fn test_validate_release_tuning_rejects_native_cpu_for_cross_target() {
    let tuning = ReleaseTuning {
        target: Some("x86_64-unknown-linux-gnu".into()),
        native_cpu: true,
        lto: None,
        pgo_generate: None,
        pgo_use: None,
    };
    let config = host_config(tuning.target.clone());
    let error = validate_release_tuning(Backend::Llvm, &tuning, &config)
        .expect_err("cross target should reject native cpu");
    assert!(error.contains("--fast"));
}

#[test]
fn validate_release_tuning_reports_each_problem() {
    let both_pgo = ReleaseTuning {
        target: None,
        native_cpu: false,
        lto: None,
        pgo_generate: Some("gen".into()),
        pgo_use: Some("use".into()),
    };
    assert_eq!(
        validate_release_tuning(Backend::Llvm, &both_pgo, &host_config(None)),
        Err("use either `--pgo-generate` or `--pgo-use`, not both in one build".to_string())
    );
    let android = ReleaseTuning {
        target: Some("aarch64-linux-android21".into()),
        native_cpu: false,
        lto: None,
        pgo_generate: None,
        pgo_use: None,
    };
    let error = validate_release_tuning(Backend::Llvm, &android, &host_config(android.target.clone()))
        .expect_err("android needs a sysroot");
    assert!(error.contains("require a sysroot"));
    assert_eq!(validate_release_tuning(Backend::C, &ReleaseTuning::default(), &host_config(None)), Ok(()));
}

#[test]
fn classify_llvm_target_platform_reads_triples() {
    assert_eq!(classify_llvm_target_platform(Some("aarch64-linux-android21"), LlvmTargetPlatform::Linux), LlvmTargetPlatform::Android);
    assert_eq!(classify_llvm_target_platform(Some("arm64-apple-ios"), LlvmTargetPlatform::Linux), LlvmTargetPlatform::Ios);
    assert_eq!(classify_llvm_target_platform(Some("x86_64-apple-darwin"), LlvmTargetPlatform::Linux), LlvmTargetPlatform::MacOs);
    assert_eq!(classify_llvm_target_platform(Some("X86_64-PC-WINDOWS-MSVC"), LlvmTargetPlatform::Linux), LlvmTargetPlatform::Windows);
    assert_eq!(classify_llvm_target_platform(Some("riscv64-unknown-none"), LlvmTargetPlatform::Linux), LlvmTargetPlatform::Unknown);
    assert_eq!(classify_llvm_target_platform(Some("   "), LlvmTargetPlatform::MacOs), LlvmTargetPlatform::MacOs);
    assert_eq!(classify_llvm_target_platform(None, LlvmTargetPlatform::Windows), LlvmTargetPlatform::Windows);
    assert_eq!(native_binary_extension(Some("x86_64-w64-mingw32"), LlvmTargetPlatform::Linux), Some("exe"));
    assert_eq!(native_binary_extension(None, LlvmTargetPlatform::Linux), None);
}

#[test]
fn test_requested_backend_for_command_uses_llvm_when_target_is_selected() {
    let requested = requested_backend_for_command(Backend::Auto, None, false, Some("aarch64-linux-android21"));
    assert_eq!(requested, Backend::Llvm);
}

#[test]
fn test_requested_backend_from_environment_ignores_jit_for_build() {
    assert_eq!(requested_backend_from_environment(Some(Backend::Jit), false), None);
    assert_eq!(requested_backend_from_environment(Some(Backend::Jit), true), Some(Backend::Jit));
}

#[test]
fn requested_backend_prefers_cli_then_environment() {
    assert_eq!(requested_backend_for_command(Backend::C, Some(Some(Backend::Llvm)), true, None), Backend::C);
    assert_eq!(requested_backend_for_command(Backend::Auto, Some(Some(Backend::C)), true, Some("x")), Backend::C);
    assert_eq!(requested_backend_for_command(Backend::Auto, Some(Some(Backend::Jit)), false, None), Backend::Auto);
    assert_eq!(requested_backend_for_command(Backend::Auto, Some(None), false, None), Backend::Auto);
}

#[test]
fn option_helpers_compute_exact_values() {
    assert_eq!(effective_opt_level(2, false), 2);
    assert_eq!(effective_opt_level(7, false), 3);
    assert_eq!(effective_opt_level(0, true), 3);
    assert_eq!(render_backend_cli_value(Backend::Llvm), "llvm");
    assert_eq!(request_parallelism(5, 2), 2);
    assert_eq!(request_parallelism(3, 8), 3);
    assert_eq!(request_parallelism(0, 0), 1);
}

#[test]
fn cached_build_outputs_use_the_artifact_extension() {
    assert_eq!(cached_build_output_path("dist/app", CacheArtifactKind::NativeBinary), "dist/app");
    assert_eq!(cached_build_output_path("dist/app.exe", CacheArtifactKind::LlvmIr), "dist/app.ll");
    assert_eq!(cached_build_output_path("dist/app", CacheArtifactKind::CSource), "dist/app.c");
    assert_eq!(cached_build_output_path("dist/app", CacheArtifactKind::PortablePackage), "dist/app.agpkg.json");
    assert_eq!(cached_build_output_path("dist/app", CacheArtifactKind::ProfileJson), "dist/app.call_profile.json");
}

#[test]
fn resolve_build_requests_compares_paths_by_components() {
    let files: Vec<Result<String, String>> = vec![
        Ok("a//b.agam".to_string()),
        Ok("a/b.agam".to_string()),
        Ok("a/./b.agam".to_string()),
        Ok("./a/b.agam".to_string()),
    ];
    let requests = resolve_build_requests(files, None, None, LlvmTargetPlatform::Linux).expect("requests");
    assert_eq!(
        requests,
        vec![
            BuildRequest { file: "a//b.agam".to_string(), output: "a/b".to_string() },
            BuildRequest { file: "./a/b.agam".to_string(), output: "./a/b".to_string() },
        ]
    );
}

#[test]
fn same_path_follows_path_components() {
    assert!(agam::driver::paths::same_path("a//b/", "a/b"));
    assert!(agam::driver::paths::same_path("a/./b", "a/b/."));
    assert!(!agam::driver::paths::same_path("./a", "a"));
    assert!(!agam::driver::paths::same_path("/a", "a"));
    assert!(!agam::driver::paths::same_path("a/../b", "b"));
    assert!(agam::driver::paths::same_path(".", "./"));
}
