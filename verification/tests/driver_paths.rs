use agam::driver::names::{
    flag_value_enabled, normalize_publish_owners, normalize_publish_text,
    registry_field_for_index, render_project_entry, sanitize_headless_filename,
    sanitize_project_name, should_forward_headless_worker_env_var, DependencyTable,
};
use agam::driver::paths::{
    bundled_llvm_candidate_paths, daemon_pid_path, daemon_port_path, daemon_prewarm_stage_dir,
    daemon_shutdown_path, daemon_status_path, default_sdk_distribution_output_dir, file_name,
    file_stem, inferred_registry_index_name, llvm_profile_capture_path, path_join,
    relative_path_string, repl_workspace_entry_path, repl_workspace_entry_relative_path,
    standalone_windows_llvm_candidate_paths, visual_studio_llvm_candidate_paths, with_extension,
    with_file_name,
    workspace_relative_path,
};
use agam::driver::toolchain::{bundled_llvm_platform_dir, default_host_target_triple};

#[test]
fn test_sanitize_project_name_collapses_non_identifier_runs() {
    assert_eq!(sanitize_project_name("  Hello__Agam!!  "), "hello-agam");
    assert_eq!(sanitize_project_name("###"), "agam-app");
}

#[test]
fn sanitize_project_name_keeps_dashes_and_digits() {
    assert_eq!(sanitize_project_name("My-App 2"), "my-app-2");
    assert_eq!(sanitize_project_name(""), "agam-app");
}

#[test]
fn test_sanitize_headless_filename_keeps_single_file_name() {
    assert_eq!(sanitize_headless_filename("../tmp\\demo script"), "demo_script.agam");
    assert_eq!(sanitize_headless_filename("session.agam"), "session.agam");
}

#[test]
fn test_default_sdk_distribution_output_dir_uses_host_platform() {
    let platform = bundled_llvm_platform_dir("linux", "x86_64");
    let output = default_sdk_distribution_output_dir(platform);
    assert_eq!(output, path_join("dist", platform));
    assert_eq!(output, "dist/linux-x86_64");
}

#[test]
fn test_visual_studio_llvm_candidate_paths_include_expected_clang_locations() {
    let candidates = visual_studio_llvm_candidate_paths("C:/VS");
    assert_eq!(candidates[0], "C:/VS/VC/Tools/Llvm/x64/bin/clang.exe");
    assert_eq!(candidates[1], "C:/VS/VC/Tools/Llvm/bin/clang.exe");
}

#[test]
fn test_standalone_windows_llvm_candidate_paths_include_program_files_layout() {
    let candidates = standalone_windows_llvm_candidate_paths("C:/Program Files/LLVM", false);
    assert!(candidates.iter().any(|c| c == "C:/Program Files/LLVM/bin/clang"));
    assert!(candidates.iter().any(|c| c == "C:/Program Files/LLVM/bin/clang++"));
    let windows = standalone_windows_llvm_candidate_paths("C:/Program Files/LLVM", true);
    assert!(windows.iter().any(|c| c == "C:/Program Files/LLVM/bin/clang.exe"));
    assert!(windows.iter().any(|c| c == "C:/Program Files/LLVM/bin/clang++.exe"));
}

#[test]
fn test_bundled_llvm_candidate_paths_include_packaged_toolchain_layout() {
    let platform = bundled_llvm_platform_dir("linux", "x86_64");
    let candidates = bundled_llvm_candidate_paths("C:/agam", false, platform);
    let expected = "C:/agam/toolchains/llvm/linux-x86_64/bin/clang";
    assert!(candidates.iter().any(|c| c == expected));
}

#[test]
fn test_bundled_llvm_candidate_paths_support_bundle_root_override_layout() {
    let platform = bundled_llvm_platform_dir("windows", "x86_64");
    let candidates = bundled_llvm_candidate_paths("C:/agam/toolchains/llvm", true, platform);
    let expected = "C:/agam/toolchains/llvm/windows-x86_64/bin/clang.exe";
    assert!(candidates.iter().any(|c| c == expected));
}

#[test]
fn host_platform_names() {
    assert_eq!(bundled_llvm_platform_dir("macos", "aarch64"), "darwin-aarch64");
    assert_eq!(bundled_llvm_platform_dir("freebsd", "x86_64"), "unknown");
    assert_eq!(default_host_target_triple("linux", "x86_64"), "x86_64-unknown-linux-gnu");
    assert_eq!(default_host_target_triple("windows", "aarch64"), "aarch64-pc-windows-msvc");
    assert_eq!(default_host_target_triple("freebsd", "riscv64"), "riscv64-unknown-freebsd");
}

#[test]
fn path_helpers_follow_path_semantics() {
    assert_eq!(path_join("a/b", "c"), "a/b/c");
    assert_eq!(path_join("a/b/", "c"), "a/b/c");
    assert_eq!(path_join("a", "/abs"), "/abs");
    assert_eq!(file_name("dir/file.tar.gz").as_deref(), Some("file.tar.gz"));
    assert_eq!(file_name("dir/..").as_deref(), None);
    assert_eq!(file_stem("dir/file.tar.gz").as_deref(), Some("file.tar"));
    assert_eq!(file_stem("dir/.hidden").as_deref(), Some(".hidden"));
    assert_eq!(with_extension("dir/file.agam", "exe"), "dir/file.exe");
    assert_eq!(with_extension("dir/file.agam", ""), "dir/file");
}

#[test]
fn trailing_current_dir_components_are_not_file_names() {
    assert_eq!(file_name("foo.txt/.").as_deref(), Some("foo.txt"));
    assert_eq!(file_name("foo.txt/.//").as_deref(), Some("foo.txt"));
    assert_eq!(file_name("x/./.").as_deref(), Some("x"));
    assert_eq!(file_name("foo.txt/..").as_deref(), None);
    assert_eq!(file_name(".").as_deref(), None);
    assert_eq!(file_name("/.").as_deref(), None);
    assert_eq!(file_stem("dir/file.agam/.").as_deref(), Some("file"));
    assert_eq!(with_extension("dir/file.agam/.", "exe"), "dir/file.exe");
    assert_eq!(with_file_name("dir/file.agam/.", "other"), "dir/other");
    assert_eq!(sanitize_headless_filename("foo/."), "foo.agam");
    assert_eq!(sanitize_headless_filename("foo/./"), "foo.agam");
    assert_eq!(sanitize_headless_filename("."), "snippet.agam");
}

#[test]
fn daemon_and_repl_paths() {
    assert_eq!(daemon_status_path("ws"), "ws/.agam_cache/daemon/status.json");
    assert_eq!(daemon_pid_path("ws"), "ws/.agam_cache/daemon/daemon.pid");
    assert_eq!(daemon_shutdown_path("ws"), "ws/.agam_cache/daemon/shutdown_requested");
    assert_eq!(daemon_port_path("ws"), "ws/.agam_cache/daemon/daemon.port");
    assert_eq!(daemon_prewarm_stage_dir("ws"), "ws/.agam_cache/daemon/prewarm");
    assert_eq!(repl_workspace_entry_relative_path("repl.agam"), "src/repl.agam");
    assert_eq!(repl_workspace_entry_path("tmp/ws", "repl.agam"), "tmp/ws/src/repl.agam");
    assert_eq!(llvm_profile_capture_path("out/app"), "out/app.llvm_call_profile.txt");
}

#[test]
fn workspace_relative_path_rejects_escapes_and_absolute_paths() {
    assert_eq!(workspace_relative_path("root", "src/main.agam", "entry"), Ok("root/src/main.agam".to_string()));
    assert!(workspace_relative_path("root", "../x", "entry").is_err());
    assert!(workspace_relative_path("root", "/etc/x", "entry").is_err());
    assert_eq!(relative_path_string("root", "root/a/b"), Ok("a/b".to_string()));
    assert!(relative_path_string("root", "other/a").is_err());
}

#[test]
fn registry_names() {
    assert_eq!(inferred_registry_index_name("/srv/registries/team-index"), "team-index");
    assert_eq!(registry_field_for_index("agam"), None);
    assert_eq!(registry_field_for_index("mirror").as_deref(), Some("mirror"));
    assert_eq!(normalize_publish_text(Some("  text  ")).as_deref(), Some("text"));
    assert_eq!(normalize_publish_text(Some("   ")), None);
    assert_eq!(normalize_publish_text(None), None);
    let owners = vec!["  bob ".to_string(), "alice".to_string(), "".to_string(), "bob".to_string()];
    assert_eq!(normalize_publish_owners(&owners), vec!["alice".to_string(), "bob".to_string()]);
}

#[test]
fn headless_worker_environment_forwarding() {
    assert!(should_forward_headless_worker_env_var("AGAM_LLVM_CLANG"));
    assert!(should_forward_headless_worker_env_var("PATH"));
    assert!(should_forward_headless_worker_env_var("SystemRoot"));
    assert!(!should_forward_headless_worker_env_var("AWS_SECRET_ACCESS_KEY"));
    assert!(!should_forward_headless_worker_env_var("path"));
}

#[test]
fn flag_values_and_labels() {
    assert!(flag_value_enabled(Some(" YES ")));
    assert!(flag_value_enabled(Some("1")));
    assert!(!flag_value_enabled(Some("0")));
    assert!(!flag_value_enabled(None));
    assert_eq!(DependencyTable::Dev.manifest_label(), "dev-dependencies");
    assert_eq!(DependencyTable::Main.manifest_label(), "dependencies");
    assert!(render_project_entry("demo").contains("demo"));
}

#[test]
fn environment_labels_mark_the_default() {
    assert_eq!(agam::driver::names::environment_selection_label("dev", true), "dev (default)");
    assert_eq!(agam::driver::names::environment_selection_label("release", false), "release");
}
