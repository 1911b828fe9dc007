use agam::driver::daemon::snapshot_diff_touches_manifest;
use agam::driver::backend::{Backend, LlvmTargetPlatform};
use agam::driver::daemon::{
    active_daemon_status, build_outcome_artifact_kind_label, daemon_diff_has_changes,
    daemon_liveness, daemon_prewarm_build_output, daemon_prewarm_needs_refresh,
    daemon_prewarm_package_artifact_missing, daemon_prewarm_package_output,
    daemon_prewarm_stage_prefix, daemon_prewarm_status_message, dev_daemon_status_message,
    record_prewarm_error, relative_age, DaemonDiffSummary, DaemonLiveness, DaemonPrewarmSummary,
    DaemonRunMode, DaemonStatusRecord, DAEMON_HEARTBEAT_STALE_MS, DAEMON_STATUS_SCHEMA_VERSION,
};

const NOW: u128 = 1_700_000_000_000;

fn status(run_mode: DaemonRunMode, heartbeat: u128, last_error: Option<&str>) -> DaemonStatusRecord {
    DaemonStatusRecord {
        schema_version: DAEMON_STATUS_SCHEMA_VERSION,
        run_mode,
        workspace_root: "/tmp/ws".to_string(),
        project_name: "daemon-status".to_string(),
        pid: 42,
        session_started_unix_ms: NOW - 60_000,
        last_heartbeat_unix_ms: heartbeat,
        snapshot_file_count: 2,
        warmed_file_count: 1,
        warmed_version_count: 1,
        ast_decl_count: 1,
        hir_function_count: 1,
        mir_function_count: 1,
        last_error: last_error.map(|e| e.to_string()),
        prewarm: DaemonPrewarmSummary::default(),
        last_diff: DaemonDiffSummary::default(),
    }
}

#[test]
fn test_active_daemon_status_requires_fresh_heartbeat() {
    let fresh = status(DaemonRunMode::ForegroundLoop, NOW, None);
    assert!(active_daemon_status(Some(fresh), NOW).is_some());
    let stale = status(DaemonRunMode::ForegroundLoop, NOW - (DAEMON_HEARTBEAT_STALE_MS + 1), None);
    assert!(active_daemon_status(Some(stale), NOW).is_none());
    let edge = status(DaemonRunMode::BackgroundService, NOW - DAEMON_HEARTBEAT_STALE_MS, None);
    assert!(active_daemon_status(Some(edge), NOW).is_some());
    assert!(active_daemon_status(None, NOW).is_none());
}

#[test]
fn test_active_daemon_status_ignores_one_shot_snapshots() {
    let snapshot = status(DaemonRunMode::OneShot, NOW, None);
    assert_eq!(daemon_liveness(&snapshot, NOW), DaemonLiveness::Snapshot);
    assert!(active_daemon_status(Some(snapshot), NOW).is_none());
}

#[test]
fn test_active_daemon_status_ignores_error_status() {
    let failed = status(DaemonRunMode::ForegroundLoop, NOW, Some("parse error"));
    assert!(active_daemon_status(Some(failed), NOW).is_none());
}

#[test]
fn daemon_liveness_treats_future_heartbeats_as_fresh() {
    let ahead = status(DaemonRunMode::ForegroundLoop, NOW + 10_000, None);
    assert_eq!(daemon_liveness(&ahead, NOW), DaemonLiveness::Running);
    let old = status(DaemonRunMode::ForegroundLoop, NOW - 5_001, None);
    assert_eq!(daemon_liveness(&old, NOW), DaemonLiveness::Stale);
}

#[test]
fn test_dev_daemon_status_message_reports_snapshot_separately() {
    let snapshot = status(DaemonRunMode::OneShot, NOW, None);
    let message = dev_daemon_status_message(Some(&snapshot), NOW);
    assert!(message.contains("snapshot available"));
    assert!(!message.contains("stale"));
    assert_eq!(
        message,
        "daemon: snapshot available (last warm refresh just now; run `agamc daemon` for continuous incremental reuse)"
    );
}

#[test]
fn test_dev_daemon_status_message_reports_failure() {
    let failed = status(DaemonRunMode::ForegroundLoop, NOW, Some("semantic error"));
    let message = dev_daemon_status_message(Some(&failed), NOW);
    assert!(message.contains("last warm refresh failed"));
    assert!(message.contains("semantic error"));
}

#[test]
fn dev_daemon_status_message_reports_each_state() {
    assert_eq!(
        dev_daemon_status_message(None, NOW),
        "daemon: not connected (run `agamc daemon` for incremental warm-state reuse)"
    );
    let running = status(DaemonRunMode::ForegroundLoop, NOW - 10, None);
    assert_eq!(
        dev_daemon_status_message(Some(&running), NOW),
        "daemon: connected (warm-state pipeline active; 1 file(s) warm)"
    );
    let stale = status(DaemonRunMode::ForegroundLoop, NOW - 7_200_000, None);
    assert_eq!(
        dev_daemon_status_message(Some(&stale), NOW),
        "daemon: stale (last heartbeat 2h ago; run `agamc daemon` for incremental warm-state reuse)"
    );
}

#[test]
fn relative_age_uses_the_largest_whole_unit() {
    assert_eq!(relative_age(0), "just now");
    assert_eq!(relative_age(999), "just now");
    assert_eq!(relative_age(1_000), "1s ago");
    assert_eq!(relative_age(59_999), "59s ago");
    assert_eq!(relative_age(60_000), "1m ago");
    assert_eq!(relative_age(3_599_999), "59m ago");
    assert_eq!(relative_age(3_600_000), "1h ago");
    assert_eq!(relative_age(90_000_000), "25h ago");
}

#[test]
fn test_daemon_prewarm_status_message_reports_missing_package_artifact() {
    let mut summary = DaemonPrewarmSummary::default();
    summary.package_ready = true;
    summary.package_artifact_path = Some("/tmp/missing.agpkg.json".to_string());
    summary.build_backend = Some("jit".to_string());
    let message = daemon_prewarm_status_message(&summary, false).expect("prewarm status message should exist");
    assert!(message.contains("package stale (artifact missing)"));
    assert_eq!(message, "prewarm: package stale (artifact missing), build warm MIR only via jit");
}

#[test]
fn prewarm_status_message_describes_builds_and_files() {
    assert_eq!(daemon_prewarm_status_message(&DaemonPrewarmSummary::default(), false), None);
    let mut summary = DaemonPrewarmSummary::default();
    summary.package_ready = true;
    summary.package_artifact_path = Some("pkg.agpkg.json".to_string());
    summary.build_ready = true;
    summary.build_backend = Some("llvm".to_string());
    summary.build_artifact_kind = Some("native-binary".to_string());
    summary.prewarmed_file_count = 3;
    summary.prewarmed_total_files = 4;
    assert_eq!(
        daemon_prewarm_status_message(&summary, true).as_deref(),
        Some("prewarm: package ready, build ready via llvm (native-binary), warm files 3/4")
    );
    summary.build_ready = false;
    summary.package_ready = false;
    assert_eq!(
        daemon_prewarm_status_message(&summary, true).as_deref(),
        Some("prewarm: package cold, build cold via llvm, warm files 3/4")
    );
}

#[test]
fn prewarm_artifact_checks() {
    let mut summary = DaemonPrewarmSummary::default();
    assert!(!daemon_prewarm_package_artifact_missing(&summary, false));
    summary.package_ready = true;
    assert!(daemon_prewarm_package_artifact_missing(&summary, true));
    summary.package_artifact_path = Some("a.agpkg.json".to_string());
    assert!(!daemon_prewarm_package_artifact_missing(&summary, true));
    assert!(daemon_prewarm_needs_refresh(&summary, false));
}

#[test]
fn record_prewarm_error_joins_messages() {
    let mut summary = DaemonPrewarmSummary::default();
    record_prewarm_error(&mut summary, "first".to_string());
    assert_eq!(summary.last_error.as_deref(), Some("first"));
    record_prewarm_error(&mut summary, "second".to_string());
    assert_eq!(summary.last_error.as_deref(), Some("first | second"));
}

#[test]
fn diff_changes_and_artifact_labels() {
    let mut diff = DaemonDiffSummary::default();
    assert!(!daemon_diff_has_changes(&diff));
    diff.unchanged_files = 4;
    assert!(!daemon_diff_has_changes(&diff));
    diff.removed_files = 1;
    assert!(daemon_diff_has_changes(&diff));
    assert_eq!(build_outcome_artifact_kind_label(Backend::Llvm, true), "native-binary");
    assert_eq!(build_outcome_artifact_kind_label(Backend::Llvm, false), "llvm-ir");
    assert_eq!(build_outcome_artifact_kind_label(Backend::C, false), "c-source");
    assert_eq!(build_outcome_artifact_kind_label(Backend::Jit, false), "artifact");
    assert_eq!(DaemonRunMode::default(), DaemonRunMode::ForegroundLoop);
}

#[test]
fn prewarm_outputs_are_named_after_the_entry_file() {
    assert_eq!(
        daemon_prewarm_stage_prefix("ws/prewarm", "src/my app.agam", "c", "abc123"),
        "ws/prewarm/my_app_c_abc123"
    );
    assert_eq!(
        daemon_prewarm_package_output("ws/prewarm", "src/main.agam", "ff"),
        "ws/prewarm/main_package_ff.agpkg.json"
    );
    assert_eq!(
        daemon_prewarm_build_output("ws/prewarm", "src/main.agam", "ff", Some("x86_64-pc-windows-msvc"), Backend::Llvm, LlvmTargetPlatform::Linux),
        "ws/prewarm/main_llvm_ff.exe"
    );
    assert_eq!(
        daemon_prewarm_build_output("ws/prewarm", "src/main.agam", "ff", None, Backend::C, LlvmTargetPlatform::Linux),
        "ws/prewarm/main_c_ff"
    );
}

#[test]
fn daemon_status_report_lists_state_counters_and_prewarm() {
    let mut record = status(DaemonRunMode::BackgroundService, NOW - 61_000, Some("boom"));
    record.last_diff.added_files = 1;
    record.last_diff.changed_files = 2;
    record.last_diff.unchanged_files = 3;
    record.prewarm.prewarmed_file_count = 1;
    record.prewarm.prewarmed_total_files = 2;
    record.prewarm.last_error = Some("stage failed".to_string());
    let lines = agam::driver::daemon::daemon_status_report(&record, NOW, false);
    assert_eq!(
        lines,
        vec![
            "status: error".to_string(),
            "pid: 42".to_string(),
            "mode: background service".to_string(),
            "heartbeat: 1m ago".to_string(),
            "tracked files: 2".to_string(),
            "warm files: 1".to_string(),
            "warm versions: 1".to_string(),
            "parsed declarations: 1".to_string(),
            "lowered functions: HIR 1 / MIR 1".to_string(),
            "last diff: +1 ~2 -0 =3".to_string(),
            "last error: boom".to_string(),
            "warm index: 1/2 file(s) prewarmed".to_string(),
            "prewarm: package cold, build none, warm files 1/2".to_string(),
            "last prewarm error: stage failed".to_string(),
        ]
    );
    let mut fresh = status(DaemonRunMode::OneShot, NOW, None);
    fresh.last_diff.manifest_changed = true;
    let lines = agam::driver::daemon::daemon_status_report(&fresh, NOW, false);
    assert_eq!(lines[0], "status: snapshot");
    assert_eq!(lines[9], "last diff: manifest changed, full warm-state reset");
    assert_eq!(lines.len(), 10);
}

#[test]
fn snapshot_diff_touches_manifest_when_a_manifest_path_changes() {
    let previous = vec!["ws/agam.toml".to_string()];
    let next = vec!["ws/agam.toml".to_string(), "ws/lib/agam.toml".to_string()];
    let none: Vec<String> = Vec::new();
    assert!(!snapshot_diff_touches_manifest(&previous, &next, &vec!["ws/src/a.agam".to_string()], &none, &none));
    assert!(snapshot_diff_touches_manifest(&previous, &next, &vec!["ws/lib/agam.toml".to_string()], &none, &none));
    assert!(snapshot_diff_touches_manifest(&previous, &next, &none, &vec!["ws/agam.toml".to_string()], &none));
    assert!(snapshot_diff_touches_manifest(&previous, &none, &none, &none, &vec!["ws/agam.toml".to_string()]));
    assert!(!snapshot_diff_touches_manifest(&none, &none, &none, &none, &vec!["ws/agam.toml".to_string()]));
}

#[test]
fn prewarmed_entry_is_reused_only_for_the_same_file_and_content() {
    let mut p = DaemonPrewarmSummary::default();
    p.package_ready = true;
    p.entry_path = Some("ws/src/main.agam".to_string());
    p.entry_content_hash = Some("abc".to_string());
    p.package_artifact_path = Some("ws/prewarm/main_package_x.agpkg.json".to_string());
    assert_eq!(
        agam::driver::daemon::daemon_prewarmed_entry_artifact(&p, "ws/src/main.agam", "abc").as_deref(),
        Some("ws/prewarm/main_package_x.agpkg.json")
    );
    assert_eq!(agam::driver::daemon::daemon_prewarmed_entry_artifact(&p, "ws/src/other.agam", "abc"), None);
    assert_eq!(agam::driver::daemon::daemon_prewarmed_entry_artifact(&p, "ws/src/main.agam", "abd"), None);
    p.package_ready = false;
    assert_eq!(agam::driver::daemon::daemon_prewarmed_entry_artifact(&p, "ws/src/main.agam", "abc"), None);
}

fn snapshot(manifests: &[&str], sources: &[&str], tests: &[&str]) -> agam::driver::daemon::WorkspaceSnapshotFiles {
    let owned = |v: &[&str]| v.iter().map(|s| s.to_string()).collect::<Vec<String>>();
    agam::driver::daemon::WorkspaceSnapshotFiles {
        manifests: owned(manifests),
        source_files: owned(sources),
        test_files: owned(tests),
    }
}

#[test]
fn test_daemon_refresh_snapshot_hint_uses_entry_file_for_single_file_workspace() {
    assert_eq!(
        agam::driver::daemon::daemon_refresh_snapshot_hint("/tmp/ws", false, "/tmp/ws/main.agam"),
        "/tmp/ws/main.agam"
    );
    assert_eq!(agam::driver::daemon::daemon_refresh_snapshot_hint("/tmp/ws", true, "/tmp/ws/src/main.agam"), "/tmp/ws");
}

#[test]
fn workspace_diff_summary_counts_changes_or_everything_on_first_refresh() {
    let next = snapshot(&["ws/agam.toml"], &["ws/src/a.agam", "ws/src/b.agam"], &["ws/tests/t.agam"]);
    let first = agam::driver::daemon::summarize_workspace_diff(None, &next, None);
    assert_eq!(first.added_files, 4);
    assert!(!first.manifest_changed);
    let previous = snapshot(&["ws/agam.toml"], &["ws/src/a.agam"], &[]);
    let changes = agam::driver::daemon::WorkspaceSnapshotChanges {
        added_files: vec!["ws/src/b.agam".into(), "ws/tests/t.agam".into()],
        changed_files: vec!["ws/agam.toml".into()],
        removed_files: Vec::new(),
        unchanged_files: vec!["ws/src/a.agam".into()],
    };
    let later = agam::driver::daemon::summarize_workspace_diff(Some(&previous), &next, Some(&changes));
    assert_eq!((later.added_files, later.changed_files, later.removed_files, later.unchanged_files), (2, 1, 0, 1));
    assert!(later.manifest_changed);
}

fn warm_session(snapshot_files: Option<agam::driver::daemon::WorkspaceSnapshotFiles>, warm: &[&str]) -> agam::driver::daemon::DaemonSession {
    let mut cache = agam::strset::StrSet::new();
    for path in warm {
        cache.insert(path.to_string());
    }
    agam::driver::daemon::DaemonSession {
        snapshot: snapshot_files,
        cache,
        last_prewarm: DaemonPrewarmSummary::default(),
    }
}

fn changes(added: &[&str], changed: &[&str], removed: &[&str]) -> agam::driver::daemon::WorkspaceSnapshotChanges {
    let owned = |v: &[&str]| v.iter().map(|s| s.to_string()).collect::<Vec<String>>();
    agam::driver::daemon::WorkspaceSnapshotChanges {
        added_files: owned(added),
        changed_files: owned(changed),
        removed_files: owned(removed),
        unchanged_files: Vec::new(),
    }
}

#[test]
fn test_incremental_pipeline_clears_all_warm_state_when_manifest_changes() {
    let previous = snapshot(&["ws/agam.toml"], &["ws/src/main.agam"], &[]);
    let next = snapshot(&["ws/agam.toml"], &["ws/src/main.agam"], &[]);
    let session = warm_session(Some(previous), &["ws/src/main.agam"]);
    let mut pipeline = agam::driver::daemon::IncrementalPipeline::new(session);
    pipeline.apply_diff(next, &changes(&[], &["ws/agam.toml"], &[]));
    assert!(pipeline.session.cache.is_empty());
    assert_eq!(pipeline.session.snapshot.as_ref().map(|s| s.manifests.len()), Some(1));
}

#[test]
fn test_incremental_pipeline_clears_all_warm_state_when_member_manifest_changes() {
    let previous = snapshot(
        &["ws/agam.toml", "ws/packages/core/agam.toml"],
        &["ws/src/main.agam", "ws/packages/core/src/main.agam"],
        &[],
    );
    let next = snapshot(
        &["ws/agam.toml", "ws/packages/core/agam.toml"],
        &["ws/src/main.agam", "ws/packages/core/src/main.agam"],
        &[],
    );
    let session = warm_session(Some(previous), &["ws/packages/core/src/main.agam"]);
    let mut pipeline = agam::driver::daemon::IncrementalPipeline::new(session);
    pipeline.apply_diff(next, &changes(&[], &["ws/packages/core/agam.toml"], &[]));
    assert!(pipeline.session.cache.is_empty());
}

#[test]
fn incremental_pipeline_drops_only_removed_files_when_no_manifest_changes() {
    let previous = snapshot(&["ws/agam.toml"], &["ws/src/a.agam", "ws/src/b.agam", "ws/src/c.agam"], &[]);
    let next = snapshot(&["ws/agam.toml"], &["ws/src/b.agam", "ws/src/c.agam", "ws/src/d.agam"], &[]);
    let session = warm_session(Some(previous), &["ws/src/a.agam", "ws/src/b.agam", "ws/src/c.agam"]);
    let mut pipeline = agam::driver::daemon::IncrementalPipeline::new(session);
    pipeline.apply_diff(next, &changes(&["ws/src/d.agam"], &["ws/src/b.agam"], &["ws/src/a.agam"]));
    assert_eq!(pipeline.session.cache.to_vec(), vec!["ws/src/b.agam".to_string(), "ws/src/c.agam".to_string()]);
    assert_eq!(pipeline.session.snapshot.as_ref().map(|s| s.source_files.len()), Some(3));
}

#[test]
fn incremental_pipeline_first_refresh_keeps_warm_state() {
    let next = snapshot(&["ws/agam.toml"], &["ws/src/a.agam"], &[]);
    let session = warm_session(None, &["ws/src/a.agam"]);
    let mut pipeline = agam::driver::daemon::IncrementalPipeline::new(session);
    pipeline.apply_diff(next, &changes(&["ws/agam.toml"], &[], &[]));
    assert_eq!(pipeline.session.cache.to_vec(), vec!["ws/src/a.agam".to_string()]);
    assert!(pipeline.session.snapshot.is_some());
}

#[test]
fn daemon_status_of_another_schema_counts_as_none() {
    let current = status(DaemonRunMode::ForegroundLoop, NOW, None);
    let kept = agam::driver::daemon::current_daemon_status(current);
    assert_eq!(kept.map(|s| s.pid), Some(42));
    let mut old = status(DaemonRunMode::ForegroundLoop, NOW, None);
    old.schema_version = DAEMON_STATUS_SCHEMA_VERSION + 1;
    assert!(agam::driver::daemon::current_daemon_status(old).is_none());
}
