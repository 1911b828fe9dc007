use agam::driver::toolchain::wsl_mount_path;
use agam::driver::backend::{Backend, LlvmTargetPlatform, LlvmToolchain};
use agam::driver::repl::{
    backend_to_headless_backend, headless_backend_to_backend, headless_response_exit_code,
    parse_headless_backend_label, parse_repl_command, parse_repl_fast_flag,
    render_headless_backend_label, HeadlessExecutionBackend, ReplCommandKind,
};
use agam::driver::toolchain::{
    android_ndk_host_tag, android_ndk_sysroot_path, android_sysroot_destination,
    configured_llvm_clang_override, default_c_compiler, host_llvm_target_platform,
    native_llvm_clang_candidates, resolve_llvm_run_toolchain_with_opt_in,
    resolve_packaged_android_sysroot, sdk_supported_targets, standalone_windows_llvm_install_roots,
    validate_android_sysroot_layout, windows_native_llvm_install_hint, windows_vswhere_path,
    PackagedTargetProfile, SdkEnvironment,
};

#[test]
fn test_parse_repl_command_understands_backend_and_fast_commands() {
    assert_eq!(
        parse_repl_command(":backend llvm").expect("parse backend"),
        Some(ReplCommandKind::Backend(HeadlessExecutionBackend::Llvm))
    );
    assert_eq!(parse_repl_command(":fast on").expect("parse fast"), Some(ReplCommandKind::Fast(true)));
    assert_eq!(parse_repl_command(":opt 2").expect("parse opt"), Some(ReplCommandKind::Opt(2)));
}

#[test]
fn test_parse_repl_command_rejects_unknown_commands() {
    let error = parse_repl_command(":wat").expect_err("unknown repl commands should fail");
    assert!(error.contains("unknown repl command"));
    assert_eq!(error, "unknown repl command `:wat`");
}

#[test]
fn parse_repl_command_reads_every_command() {
    assert_eq!(parse_repl_command("let x = 1"), Ok(None));
    assert_eq!(parse_repl_command("   "), Ok(None));
    assert_eq!(parse_repl_command("  :help  "), Ok(Some(ReplCommandKind::Help)));
    assert_eq!(parse_repl_command(":q"), Ok(Some(ReplCommandKind::Quit)));
    assert_eq!(parse_repl_command(":exit"), Ok(Some(ReplCommandKind::Quit)));
    assert_eq!(parse_repl_command(":clear"), Ok(Some(ReplCommandKind::Reset)));
    assert_eq!(parse_repl_command(":show"), Ok(Some(ReplCommandKind::Show)));
    assert_eq!(parse_repl_command(": run"), Ok(Some(ReplCommandKind::Run)));
    assert_eq!(
        parse_repl_command(":load   examples/a b.agam "),
        Ok(Some(ReplCommandKind::Load("examples/a b.agam".to_string())))
    );
    assert_eq!(parse_repl_command(":fast\toff"), Ok(Some(ReplCommandKind::Fast(false))));
    assert_eq!(parse_repl_command(":opt +03"), Ok(Some(ReplCommandKind::Opt(3))));
}

#[test]
fn parse_repl_command_reports_each_error() {
    assert_eq!(parse_repl_command(":"), Err("empty repl command".to_string()));
    assert_eq!(parse_repl_command(":load"), Err("`:load` requires a path".to_string()));
    assert_eq!(parse_repl_command(":opt"), Err("`:opt` requires a value from 0 to 3".to_string()));
    assert_eq!(parse_repl_command(":opt 4"), Err("optimization level `4` must be 0..=3".to_string()));
    assert_eq!(parse_repl_command(":opt 004"), Err("optimization level `4` must be 0..=3".to_string()));
    assert_eq!(parse_repl_command(":opt fast"), Err("invalid optimization level `fast`".to_string()));
    assert_eq!(parse_repl_command(":opt 300"), Err("invalid optimization level `300`".to_string()));
    assert_eq!(
        parse_repl_command(":backend gpu"),
        Err("unknown backend `gpu`; expected auto, c, llvm, or jit".to_string())
    );
    assert_eq!(parse_repl_command(":fast maybe"), Err("`:fast` expects `on` or `off`".to_string()));
}

#[test]
fn backend_labels_round_trip() {
    for backend in [
        HeadlessExecutionBackend::Auto,
        HeadlessExecutionBackend::C,
        HeadlessExecutionBackend::Llvm,
        HeadlessExecutionBackend::Jit,
    ] {
        assert_eq!(parse_headless_backend_label(render_headless_backend_label(backend)), Ok(backend));
        assert_eq!(backend_to_headless_backend(headless_backend_to_backend(backend)), backend);
    }
    assert_eq!(headless_backend_to_backend(HeadlessExecutionBackend::C), Backend::C);
    assert!(parse_headless_backend_label("LLVM").is_err());
}

#[test]
fn fast_flag_and_exit_codes() {
    assert_eq!(parse_repl_fast_flag("true"), Ok(true));
    assert_eq!(parse_repl_fast_flag("0"), Ok(false));
    assert!(parse_repl_fast_flag("On").is_err());
    assert_eq!(headless_response_exit_code(Some(7), false), 7);
    assert_eq!(headless_response_exit_code(None, true), 0);
    assert_eq!(headless_response_exit_code(None, false), 1);
}

#[test]
fn clang_candidates_respect_the_override_and_skip_repeats() {
    assert_eq!(
        native_llvm_clang_candidates(Some("/opt/clang".to_string()), Some("b".to_string()), None, None),
        vec!["/opt/clang".to_string()]
    );
    assert_eq!(
        native_llvm_clang_candidates(None, Some("b/clang".to_string()), Some("b/clang".to_string()), Some("clang".to_string())),
        vec!["b/clang".to_string(), "clang".to_string(), "clang++".to_string()]
    );
    assert_eq!(
        native_llvm_clang_candidates(None, None, None, None),
        vec!["clang".to_string(), "clang++".to_string()]
    );
    assert_eq!(configured_llvm_clang_override(Some("  ")), None);
    assert_eq!(configured_llvm_clang_override(Some(" clang-18 ")).as_deref(), Some(" clang-18 "));
    assert_eq!(configured_llvm_clang_override(None), None);
}

#[test]
fn toolchain_choices() {
    assert_eq!(resolve_llvm_run_toolchain_with_opt_in(Some(LlvmToolchain::Native), false, true), Some(LlvmToolchain::Native));
    assert_eq!(resolve_llvm_run_toolchain_with_opt_in(None, true, true), Some(LlvmToolchain::Wsl));
    assert_eq!(resolve_llvm_run_toolchain_with_opt_in(None, false, true), None);
    assert_eq!(default_c_compiler(true), "gcc");
    assert_eq!(default_c_compiler(false), "cc");
    assert_eq!(host_llvm_target_platform("macos"), LlvmTargetPlatform::MacOs);
    assert_eq!(host_llvm_target_platform("plan9"), LlvmTargetPlatform::Unknown);
}

#[test]
fn windows_install_locations() {
    assert_eq!(
        windows_vswhere_path(true, Some("C:/PF86")).as_deref(),
        Some("C:/PF86/Microsoft Visual Studio/Installer/vswhere.exe")
    );
    assert_eq!(windows_vswhere_path(false, Some("C:/PF86")), None);
    assert_eq!(windows_vswhere_path(true, Some("")), None);
    assert_eq!(
        standalone_windows_llvm_install_roots(true, Some("C:/PF"), Some("C:/PF"), Some("C:/PF86")),
        vec!["C:/PF/LLVM".to_string(), "C:/PF86/LLVM".to_string()]
    );
    assert!(standalone_windows_llvm_install_roots(false, Some("C:/PF"), None, None).is_empty());
    let hint = windows_native_llvm_install_hint(true, Some("C:/VS"), false, "windows-x86_64").expect("hint");
    assert!(hint.contains("toolchains/llvm/windows-x86_64/bin"));
    assert!(hint.contains("Visual Studio Installer for `C:/VS`"));
    assert!(hint.contains("`AGAM_LLVM_BUNDLE_DIR` / `AGAM_LLVM_CLANG`"));
    assert_eq!(windows_native_llvm_install_hint(false, None, true, "linux-x86_64"), None);
}

#[test]
fn android_sysroot_locations() {
    assert_eq!(android_ndk_host_tag("linux", "x86_64"), Some("linux-x86_64"));
    assert_eq!(android_ndk_host_tag("macos", "aarch64"), Some("darwin-arm64"));
    assert_eq!(android_ndk_host_tag("macos", "powerpc"), None);
    assert_eq!(
        android_ndk_sysroot_path("/ndk", "linux-x86_64"),
        "/ndk/toolchains/llvm/prebuilt/linux-x86_64/sysroot"
    );
    assert_eq!(android_sysroot_destination("out"), "out/target-packs/android-arm64/sysroot");
    assert_eq!(validate_android_sysroot_layout("s", true, true), Ok(()));
    assert_eq!(
        validate_android_sysroot_layout("s", false, true),
        Err("Android sysroot source `s` does not exist or is not a directory".to_string())
    );
    assert_eq!(
        validate_android_sysroot_layout("s", true, false),
        Err("Android sysroot `s` must include a `usr/` directory".to_string())
    );
}

#[test]
fn packaged_android_sysroot_prefers_the_requested_triple() {
    let profiles = vec![
        PackagedTargetProfile { target_triple: "x86_64-unknown-linux-gnu".into(), packaged_sysroot: Some("linux".into()), sysroot_is_dir: true },
        PackagedTargetProfile { target_triple: "armv7-linux-androideabi".into(), packaged_sysroot: Some("armv7".into()), sysroot_is_dir: true },
        PackagedTargetProfile { target_triple: "aarch64-linux-android21".into(), packaged_sysroot: Some("arm64".into()), sysroot_is_dir: true },
        PackagedTargetProfile { target_triple: "i686-linux-android".into(), packaged_sysroot: Some("x86".into()), sysroot_is_dir: false },
    ];
    assert_eq!(
        resolve_packaged_android_sysroot(Some("aarch64-linux-android21"), "/sdk", &profiles, LlvmTargetPlatform::Linux).as_deref(),
        Some("/sdk/arm64")
    );
    assert_eq!(
        resolve_packaged_android_sysroot(None, "/sdk", &profiles, LlvmTargetPlatform::Linux).as_deref(),
        Some("/sdk/armv7")
    );
    assert_eq!(
        resolve_packaged_android_sysroot(Some("i686-linux-android"), "/sdk", &profiles[3..].to_vec(), LlvmTargetPlatform::Linux),
        None
    );
}

#[test]
fn test_sdk_supported_targets_begin_with_host_native() {
    let targets = sdk_supported_targets("x86_64-unknown-linux-gnu", LlvmTargetPlatform::Linux, None, None);
    assert!(!targets.is_empty());
    assert_eq!(targets[0].name, "host-native");
    assert_eq!(targets[0].backend, Backend::Llvm);
}

#[test]
fn test_sdk_supported_targets_record_packaged_android_sysroot() {
    let targets = sdk_supported_targets(
        "x86_64-unknown-linux-gnu",
        LlvmTargetPlatform::Linux,
        None,
        Some("target-packs/android-arm64/sysroot"),
    );
    let android = targets
        .iter()
        .find(|target| target.target_triple == "aarch64-linux-android21")
        .expect("default SDK target list should include android");
    assert_eq!(android.packaged_sysroot.as_deref(), Some("target-packs/android-arm64/sysroot"));
}

#[test]
fn test_sdk_supported_targets_include_selected_environment_target() {
    let environment = SdkEnvironment {
        name: "release-linux".into(),
        target: Some("x86_64-unknown-linux-musl".into()),
        preferred_backend: Some(Backend::Llvm),
    };
    let targets = sdk_supported_targets("x86_64-unknown-linux-gnu", LlvmTargetPlatform::Linux, Some(&environment), None);
    assert!(targets.iter().any(|target| {
        target.name == "release-linux"
            && target.target_triple == "x86_64-unknown-linux-musl"
            && target.backend == Backend::Llvm
    }));
    assert_eq!(targets[0].name, "release-linux");
    assert_eq!(targets.len(), 3);
}

#[test]
fn sdk_environment_matching_a_base_target_updates_it() {
    let environment = SdkEnvironment {
        name: "android".into(),
        target: Some("aarch64-linux-android21".into()),
        preferred_backend: Some(Backend::C),
    };
    let targets = sdk_supported_targets("x86_64-pc-windows-msvc", LlvmTargetPlatform::Windows, Some(&environment), Some("pack"));
    assert_eq!(targets.len(), 2);
    assert_eq!(targets[1].name, "android-arm64");
    assert_eq!(targets[1].backend, Backend::C);
    assert_eq!(targets[1].sysroot_env.as_deref(), Some("AGAM_LLVM_SYSROOT"));
    assert_eq!(targets[1].packaged_sysroot.as_deref(), Some("pack"));
    let mac = sdk_supported_targets("aarch64-apple-darwin", LlvmTargetPlatform::MacOs, None, None);
    assert_eq!(mac.len(), 1);
}

#[test]
fn wsl_mount_paths_translate_drive_letters() {
    assert_eq!(wsl_mount_path("C:\\Users\\me\\a.ll"), Ok("/mnt/c/Users/me/a.ll".to_string()));
    assert_eq!(wsl_mount_path("d:/work"), Ok("/mnt/d/work".to_string()));
    assert_eq!(
        wsl_mount_path("/home/me"),
        Err("cannot translate path `/home/me` into a WSL mount path".to_string())
    );
}

#[test]
fn bundled_llvm_search_roots_skip_repeats() {
    let roots = agam::driver::toolchain::bundled_llvm_search_roots(Some("/opt/llvm"), Some("/opt/agam/bin"), Some("/opt/agam"));
    assert_eq!(roots, vec!["/opt/llvm".to_string(), "/opt/agam/bin".to_string(), "/opt/agam".to_string()]);
    let same = agam::driver::toolchain::bundled_llvm_search_roots(Some("/opt/agam/bin"), Some("/opt/agam/bin"), None);
    assert_eq!(same, vec!["/opt/agam/bin".to_string()]);
    assert!(agam::driver::toolchain::bundled_llvm_search_roots(None, None, None).is_empty());
}
