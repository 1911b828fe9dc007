use agam::driver::backend::{Backend, LlvmTargetPlatform};
use agam::driver::toolchain::{doctor_report, DoctorEnvironment, DoctorLine, DoctorProbes};

fn probes() -> DoctorProbes {
    DoctorProbes {
        platform_dir: "linux-x86_64".to_string(),
        native_driver: Some("/usr/bin/clang".to_string()),
        bundled_root: None,
        bundled_driver: None,
        llvm_override: None,
        visual_studio_install: None,
        visual_studio_driver: None,
        has_standalone_llvm_roots: false,
        wsl_clang: false,
        c_compiler_found: true,
        android_sysroot: None,
        sdk_root: None,
    }
}

fn environment() -> DoctorEnvironment {
    DoctorEnvironment {
        compiler: ">=0.1".to_string(),
        sdk: None,
        target: None,
        preferred_backend: None,
        runtime_abi: None,
        profiles: Vec::new(),
    }
}

fn line<'a>(lines: &'a [DoctorLine], label: &str) -> &'a DoctorLine {
    lines.iter().find(|l| l.label == label).expect("line expected")
}

fn labels(lines: &[DoctorLine]) -> Vec<&str> {
    lines.iter().map(|l| l.label.as_str()).collect()
}

#[test]
fn doctor_is_healthy_with_a_native_driver_and_no_environment() {
    let (lines, healthy) = doctor_report(&probes(), None, 1, LlvmTargetPlatform::Linux);
    assert!(healthy);
    assert_eq!(
        labels(&lines),
        vec!["native llvm", "bundled llvm", "bundled driver", "llvm override", "c fallback", "android sysroot"]
    );
    assert_eq!(line(&lines, "native llvm").status, "ok");
    assert_eq!(line(&lines, "native llvm").detail, "using `/usr/bin/clang`");
    assert_eq!(
        line(&lines, "bundled llvm").detail,
        "no bundled LLVM found; expected `toolchains/llvm/linux-x86_64/bin` near `agamc` or set `AGAM_LLVM_BUNDLE_DIR`"
    );
    assert!(line(&lines, "bundled driver").verbose_only);
    assert!(line(&lines, "llvm override").verbose_only);
    assert_eq!(line(&lines, "llvm override").status, "unset");
    assert_eq!(line(&lines, "c fallback").detail, "`cc` detected");
    assert!(!line(&lines, "android sysroot").verbose_only);
}

#[test]
fn doctor_without_native_driver_is_unhealthy_and_gives_the_generic_hint() {
    let mut p = probes();
    p.native_driver = None;
    p.c_compiler_found = false;
    let (lines, healthy) = doctor_report(&p, None, 1, LlvmTargetPlatform::MacOs);
    assert!(!healthy);
    let native = line(&lines, "native llvm");
    assert_eq!(native.status, "missing");
    assert_eq!(
        native.detail,
        "install a native LLVM/Clang toolchain, bundle one next to agamc, or set `AGAM_LLVM_CLANG`"
    );
    assert_eq!(line(&lines, "c fallback").detail, "`cc` was not detected on PATH");
}

#[test]
fn doctor_on_windows_reports_visual_studio_and_the_windows_hint() {
    let mut p = probes();
    p.platform_dir = "windows-x86_64".to_string();
    p.native_driver = None;
    p.visual_studio_install = Some("C:/VS".to_string());
    p.wsl_clang = true;
    let (lines, healthy) = doctor_report(&p, None, 1, LlvmTargetPlatform::Windows);
    assert!(!healthy);
    assert_eq!(
        labels(&lines),
        vec![
            "native llvm",
            "bundled llvm",
            "bundled driver",
            "visual studio",
            "visual studio llvm",
            "wsl llvm",
            "llvm override",
            "c fallback",
            "android sysroot"
        ]
    );
    assert_eq!(
        line(&lines, "native llvm").detail,
        "ship a bundled LLVM toolchain next to `agamc` under `toolchains/llvm/windows-x86_64/bin`, install the LLVM/Clang tools in Visual Studio Installer for `C:/VS`, or set `AGAM_LLVM_BUNDLE_DIR` / `AGAM_LLVM_CLANG` explicitly"
    );
    assert_eq!(line(&lines, "visual studio").detail, "installation `C:/VS`");
    assert_eq!(line(&lines, "visual studio llvm").status, "missing");
    assert_eq!(line(&lines, "wsl llvm").status, "available");
    assert_eq!(line(&lines, "c fallback").detail, "`gcc` detected");
}

#[test]
fn doctor_checks_the_environment_target_backend_and_abi() {
    let mut env = environment();
    env.sdk = Some("android-34".to_string());
    env.target = Some("aarch64-linux-android".to_string());
    env.preferred_backend = Some(Backend::Llvm);
    env.runtime_abi = Some(3);
    env.profiles = vec!["release".to_string(), "mobile".to_string()];
    let (lines, healthy) = doctor_report(&probes(), Some(&env), 3, LlvmTargetPlatform::Linux);
    assert!(!healthy);
    let target = line(&lines, "env target");
    assert_eq!(target.status, "missing");
    assert_eq!(
        target.detail,
        "target `aarch64-linux-android` needs `AGAM_LLVM_SYSROOT` or `ANDROID_NDK_HOME`/`ANDROID_NDK_ROOT`"
    );
    assert_eq!(line(&lines, "env compiler").detail, "compiler requirement `>=0.1`");
    assert_eq!(line(&lines, "env sdk").detail, "sdk `android-34`");
    assert_eq!(line(&lines, "env backend").detail, "environment can use the native LLVM backend");
    assert_eq!(line(&lines, "env runtime abi").status, "ok");
    assert_eq!(line(&lines, "env runtime abi").detail, "environment expects v3; host runtime exports v3");
    assert_eq!(line(&lines, "env profiles").detail, "profiles `release, mobile`");

    let mut p = probes();
    p.android_sysroot = Some("/ndk/sysroot".to_string());
    let (lines, healthy) = doctor_report(&p, Some(&env), 3, LlvmTargetPlatform::Linux);
    assert!(healthy);
    assert_eq!(
        line(&lines, "env target").detail,
        "target `aarch64-linux-android` via sysroot `/ndk/sysroot`"
    );
}

#[test]
fn doctor_flags_an_abi_mismatch_and_a_missing_c_backend() {
    let mut env = environment();
    env.runtime_abi = Some(2);
    env.preferred_backend = Some(Backend::C);
    let mut p = probes();
    p.c_compiler_found = false;
    let (lines, healthy) = doctor_report(&p, Some(&env), 5, LlvmTargetPlatform::Linux);
    assert!(!healthy);
    assert_eq!(line(&lines, "env runtime abi").status, "mismatch");
    assert_eq!(line(&lines, "env runtime abi").detail, "environment expects v2; host runtime exports v5");
    assert_eq!(line(&lines, "env backend").status, "missing");
    assert_eq!(
        line(&lines, "env backend").detail,
        "environment requests the C backend but `cc` was not detected"
    );
    assert!(line(&lines, "env target").verbose_only);
    assert!(line(&lines, "env sdk").verbose_only);
}

#[test]
fn doctor_apple_targets_need_an_sdk_root() {
    let mut env = environment();
    env.target = Some("arm64-apple-ios".to_string());
    env.preferred_backend = Some(Backend::Auto);
    let (lines, healthy) = doctor_report(&probes(), Some(&env), 1, LlvmTargetPlatform::MacOs);
    assert!(!healthy);
    assert_eq!(line(&lines, "env target").detail, "target `arm64-apple-ios` needs `AGAM_LLVM_SDKROOT` or `SDKROOT`");
    assert_eq!(line(&lines, "env backend").status, "selected");
    let mut p = probes();
    p.sdk_root = Some("/sdk".to_string());
    let (lines, healthy) = doctor_report(&p, Some(&env), 1, LlvmTargetPlatform::MacOs);
    assert!(healthy);
    assert_eq!(line(&lines, "env target").detail, "target `arm64-apple-ios` via SDK root `/sdk`");
}
