//! The warm-state daemon's status record, and what the driver reads from it:
//! whether the daemon is alive, what its prewarm stage holds, and the
//! one-line summaries shown to the user.

use vstd::prelude::*;
use crate::driver::backend::Backend;
use crate::driver::call_cache::CallCacheSelection;
use crate::text::{decimal, decimal_string, opt_string_view, push_decimal, str_eq};

verus! {

/// Version of the status file layout written by this driver.
pub const DAEMON_STATUS_SCHEMA_VERSION: u32 = 1;

/// A heartbeat older than this many milliseconds marks a looping daemon as
/// stale.
pub const DAEMON_HEARTBEAT_STALE_MS: u128 = 5000;

/// How the daemon that wrote a status record was running.
#[derive(Clone, Copy, Debug, PartialEq, Eq, Structural)]
pub enum DaemonRunMode {
    OneShot,
    ForegroundLoop,
    BackgroundService,
}

impl Default for DaemonRunMode {
    /// Records written before the field existed came from a foreground loop.
    fn default() -> (r: Self)
        ensures
            r == DaemonRunMode::ForegroundLoop,
    {
        DaemonRunMode::ForegroundLoop
    }
}

/// What a status record says about the daemon behind it.
#[derive(Clone, Copy, Debug, PartialEq, Eq, Structural)]
pub enum DaemonLiveness {
    Running,
    Snapshot,
    Stale,
}

/// File counts of the last workspace refresh.
#[derive(Clone, Copy, Debug, PartialEq, Eq, Structural)]
pub struct DaemonDiffSummary {
    pub added_files: usize,
    pub changed_files: usize,
    pub removed_files: usize,
    pub unchanged_files: usize,
    pub manifest_changed: bool,
}

impl Default for DaemonDiffSummary {
    fn default() -> (r: Self)
        ensures
            r.added_files == 0,
            r.changed_files == 0,
            r.removed_files == 0,
            r.unchanged_files == 0,
            !r.manifest_changed,
    {
        DaemonDiffSummary {
            added_files: 0,
            changed_files: 0,
            removed_files: 0,
            unchanged_files: 0,
            manifest_changed: false,
        }
    }
}

/// What the daemon prepared ahead of a run: a portable package of the entry
/// file and, possibly, a backend build of it.
#[derive(Debug)]
pub struct DaemonPrewarmSummary {
    pub package_ready: bool,
    pub entry_path: Option<String>,
    pub entry_content_hash: Option<String>,
    pub package_artifact_path: Option<String>,
    pub call_cache: CallCacheSelection,
    pub build_ready: bool,
    pub build_backend: Option<String>,
    pub build_artifact_kind: Option<String>,
    pub prewarmed_file_count: usize,
    pub prewarmed_total_files: usize,
    pub last_error: Option<String>,
}

impl Default for DaemonPrewarmSummary {
    fn default() -> (r: Self)
        ensures
            !r.package_ready,
            r.entry_path is None,
            r.entry_content_hash is None,
            r.package_artifact_path is None,
            r.call_cache.wf(),
            !r.build_ready,
            r.build_backend is None,
            r.build_artifact_kind is None,
            r.prewarmed_file_count == 0,
            r.prewarmed_total_files == 0,
            r.last_error is None,
    {
        DaemonPrewarmSummary {
            package_ready: false,
            entry_path: None,
            entry_content_hash: None,
            package_artifact_path: None,
            call_cache: CallCacheSelection::default(),
            build_ready: false,
            build_backend: None,
            build_artifact_kind: None,
            prewarmed_file_count: 0,
            prewarmed_total_files: 0,
            last_error: None,
        }
    }
}

/// The record a daemon keeps in `.agam_cache/daemon/status.json`.
#[derive(Debug)]
pub struct DaemonStatusRecord {
    pub schema_version: u32,
    pub run_mode: DaemonRunMode,
    pub workspace_root: String,
    pub project_name: String,
    pub pid: u32,
    pub session_started_unix_ms: u128,
    pub last_heartbeat_unix_ms: u128,
    pub snapshot_file_count: usize,
    pub warmed_file_count: usize,
    pub warmed_version_count: usize,
    pub ast_decl_count: usize,
    pub hir_function_count: usize,
    pub mir_function_count: usize,
    pub last_error: Option<String>,
    pub prewarm: DaemonPrewarmSummary,
    pub last_diff: DaemonDiffSummary,
}

/// `now - then`, or zero when `then` lies in the future.
pub open spec fn elapsed_ms(now: u128, then: u128) -> nat {
    if now >= then {
        (now - then) as nat
    } else {
        0
    }
}

/// A one-shot run leaves a snapshot; a looping daemon is running while its
/// heartbeat is at most `DAEMON_HEARTBEAT_STALE_MS` old.
pub open spec fn liveness_of(run_mode: DaemonRunMode, heartbeat: u128, now: u128) -> DaemonLiveness {
    if run_mode == DaemonRunMode::OneShot {
        DaemonLiveness::Snapshot
    } else if elapsed_ms(now, heartbeat) <= DAEMON_HEARTBEAT_STALE_MS {
        DaemonLiveness::Running
    } else {
        DaemonLiveness::Stale
    }
}

/// Liveness of the daemon behind `status`, seen at `now` (milliseconds since
/// the epoch).
pub fn daemon_liveness(status: &DaemonStatusRecord, now: u128) -> (r: DaemonLiveness)
    ensures
        r == liveness_of(status.run_mode, status.last_heartbeat_unix_ms, now),
{
    if status.run_mode == DaemonRunMode::OneShot {
        return DaemonLiveness::Snapshot;
    }
    if now.saturating_sub(status.last_heartbeat_unix_ms) <= DAEMON_HEARTBEAT_STALE_MS {
        DaemonLiveness::Running
    } else {
        DaemonLiveness::Stale
    }
}

/// The status of a daemon that can serve warm state now: one that recorded
/// no error and is running.
pub fn active_daemon_status(status: Option<DaemonStatusRecord>, now: u128) -> (r: Option<
    DaemonStatusRecord,
>)
    ensures
        r == (match status {
            Some(s) => if s.last_error is None && liveness_of(
                s.run_mode,
                s.last_heartbeat_unix_ms,
                now,
            ) == DaemonLiveness::Running {
                Some(s)
            } else {
                None
            },
            None => None,
        }),
{
    match status {
        None => None,
        Some(s) => {
            if s.last_error.is_some() {
                return None;
            }
            if daemon_liveness(&s, now) == DaemonLiveness::Running {
                Some(s)
            } else {
                None
            }
        },
    }
}

/// Whether a refresh saw any change.
pub fn daemon_diff_has_changes(summary: &DaemonDiffSummary) -> (r: bool)
    ensures
        r == (summary.manifest_changed || summary.added_files > 0 || summary.changed_files > 0
            || summary.removed_files > 0),
{
    summary.manifest_changed || summary.added_files > 0 || summary.changed_files > 0
        || summary.removed_files > 0
}

/// Adds `message` to the prewarm errors, after earlier ones and a ` | `.
pub fn record_prewarm_error(summary: &mut DaemonPrewarmSummary, message: String)
    ensures
        opt_string_view(final(summary).last_error) == Some(
            match old(summary).last_error {
                Some(e) => e@ + " | "@ + message@,
                None => message@,
            },
        ),
        final(summary).package_ready == old(summary).package_ready,
        final(summary).entry_path == old(summary).entry_path,
        final(summary).entry_content_hash == old(summary).entry_content_hash,
        final(summary).package_artifact_path == old(summary).package_artifact_path,
        final(summary).call_cache == old(summary).call_cache,
        final(summary).build_ready == old(summary).build_ready,
        final(summary).build_backend == old(summary).build_backend,
        final(summary).build_artifact_kind == old(summary).build_artifact_kind,
        final(summary).prewarmed_file_count == old(summary).prewarmed_file_count,
        final(summary).prewarmed_total_files == old(summary).prewarmed_total_files,
{
    match summary.last_error.take() {
        Some(mut existing) => {
            existing.append(" | ");
            existing.append(message.as_str());
            summary.last_error = Some(existing);
        },
        None => summary.last_error = Some(message),
    }
}

} // verus!

verus! {

/// A prewarmed package is missing when it is recorded as ready but its
/// artifact path is absent or names no file (`artifact_is_file` says which
/// holds of the recorded path).
pub open spec fn package_artifact_missing(prewarm: DaemonPrewarmSummary, artifact_is_file: bool) -> bool {
    prewarm.package_ready && (prewarm.package_artifact_path is None || !artifact_is_file)
}

/// Whether the prewarmed package is recorded as ready but its artifact is
/// gone; `artifact_is_file` tells whether the recorded artifact path names a
/// file.
pub fn daemon_prewarm_package_artifact_missing(prewarm: &DaemonPrewarmSummary, artifact_is_file: bool) -> (r: bool)
    ensures
        r == package_artifact_missing(*prewarm, artifact_is_file),
{
    if !prewarm.package_ready {
        return false;
    }
    match &prewarm.package_artifact_path {
        Some(_) => !artifact_is_file,
        None => true,
    }
}

/// Whether the daemon must prewarm again before its artifacts can be used.
pub fn daemon_prewarm_needs_refresh(prewarm: &DaemonPrewarmSummary, artifact_is_file: bool) -> (r: bool)
    ensures
        r == package_artifact_missing(*prewarm, artifact_is_file),
{
    daemon_prewarm_package_artifact_missing(prewarm, artifact_is_file)
}

/// Label of the artifact a build produced.
pub fn build_outcome_artifact_kind_label(backend: Backend, native_binary: bool) -> (r: &'static str)
    ensures
        r@ == (if native_binary {
            "native-binary"@
        } else {
            match backend {
                Backend::C => "c-source"@,
                Backend::Llvm => "llvm-ir"@,
                _ => "artifact"@,
            }
        }),
{
    if native_binary {
        "native-binary"
    } else {
        match backend {
            Backend::C => "c-source",
            Backend::Llvm => "llvm-ir",
            Backend::Auto | Backend::Jit => "artifact",
        }
    }
}

/// Whether a prewarm summary records nothing at all.
pub open spec fn prewarm_is_blank(p: DaemonPrewarmSummary) -> bool {
    !p.package_ready && !p.build_ready && p.build_backend is None && p.last_error is None
        && p.prewarmed_file_count == 0
}

pub open spec fn package_state_text(p: DaemonPrewarmSummary, artifact_is_file: bool) -> Seq<char> {
    if package_artifact_missing(p, artifact_is_file) {
        "stale (artifact missing)"@
    } else if p.package_ready {
        "ready"@
    } else {
        "cold"@
    }
}

pub open spec fn build_state_text(p: DaemonPrewarmSummary) -> Seq<char> {
    match p.build_backend {
        Some(b) => if b@ == "jit"@ {
            "warm MIR only via jit"@
        } else if p.build_ready {
            "ready via "@ + b@ + " ("@ + (match p.build_artifact_kind {
                Some(k) => k@,
                None => "artifact"@,
            }) + ")"@
        } else {
            "cold via "@ + b@
        },
        None => "none"@,
    }
}

pub open spec fn warm_files_text(p: DaemonPrewarmSummary) -> Seq<char> {
    if p.prewarmed_total_files > 0 {
        ", warm files "@ + decimal(p.prewarmed_file_count as nat) + "/"@ + decimal(
            p.prewarmed_total_files as nat,
        )
    } else {
        Seq::empty()
    }
}

/// The `prewarm:` line of the daemon status, absent when nothing was
/// prewarmed.
pub open spec fn prewarm_status_text(p: DaemonPrewarmSummary, artifact_is_file: bool) -> Option<Seq<char>> {
    if prewarm_is_blank(p) {
        None
    } else {
        Some(
            "prewarm: package "@ + package_state_text(p, artifact_is_file) + ", build "@
                + build_state_text(p) + warm_files_text(p),
        )
    }
}

/// One line describing the prewarm stage, or `None` when it holds nothing;
/// `artifact_is_file` tells whether the recorded package artifact path names
/// a file.
pub fn daemon_prewarm_status_message(prewarm: &DaemonPrewarmSummary, artifact_is_file: bool) -> (r: Option<String>)
    ensures
        opt_string_view(r) == prewarm_status_text(*prewarm, artifact_is_file),
{
    if !prewarm.package_ready && !prewarm.build_ready && prewarm.build_backend.is_none()
        && prewarm.last_error.is_none() && prewarm.prewarmed_file_count == 0 {
        return None;
    }
    let package = if daemon_prewarm_package_artifact_missing(prewarm, artifact_is_file) {
        "stale (artifact missing)"
    } else if prewarm.package_ready {
        "ready"
    } else {
        "cold"
    };
    let mut out = String::new();
    out.append("prewarm: package ");
    out.append(package);
    out.append(", build ");
    match &prewarm.build_backend {
        Some(b) => {
            if str_eq(b.as_str(), "jit") {
                out.append("warm MIR only via jit");
            } else if prewarm.build_ready {
                out.append("ready via ");
                out.append(b.as_str());
                out.append(" (");
                match &prewarm.build_artifact_kind {
                    Some(k) => out.append(k.as_str()),
                    None => out.append("artifact"),
                }
                out.append(")");
            } else {
                out.append("cold via ");
                out.append(b.as_str());
            }
        },
        None => out.append("none"),
    }
    if prewarm.prewarmed_total_files > 0 {
        out.append(", warm files ");
        push_decimal(&mut out, prewarm.prewarmed_file_count as u128);
        out.append("/");
        push_decimal(&mut out, prewarm.prewarmed_total_files as u128);
    }
    assert(out@ =~= prewarm_status_text(*prewarm, artifact_is_file)->0);
    Some(out)
}

} // verus!

verus! {

/// How long ago something happened, `delta_ms` milliseconds back, in the
/// largest whole unit among hours, minutes and seconds.
pub open spec fn relative_age_text(delta_ms: nat) -> Seq<char> {
    if delta_ms >= 3_600_000 {
        decimal(delta_ms / 3_600_000) + "h ago"@
    } else if delta_ms >= 60_000 {
        decimal(delta_ms / 60_000) + "m ago"@
    } else if delta_ms >= 1000 {
        decimal(delta_ms / 1000) + "s ago"@
    } else {
        "just now"@
    }
}

/// `delta_ms` milliseconds rendered as an age (`3m ago`, `just now`).
pub fn relative_age(delta_ms: u128) -> (r: String)
    ensures
        r@ == relative_age_text(delta_ms as nat),
{
    let second: u128 = 1000;
    let minute: u128 = 60 * second;
    let hour: u128 = 60 * minute;
    let mut out: String;
    if delta_ms >= hour {
        out = decimal_string(delta_ms / hour);
        out.append("h ago");
    } else if delta_ms >= minute {
        out = decimal_string(delta_ms / minute);
        out.append("m ago");
    } else if delta_ms >= second {
        out = decimal_string(delta_ms / second);
        out.append("s ago");
    } else {
        out = String::new();
        out.append("just now");
    }
    out
}

/// The `daemon:` line of `agamc dev`, for the recorded status (if any) seen
/// at `now`.
pub open spec fn dev_daemon_status_text(status: Option<DaemonStatusRecord>, now: u128) -> Seq<char> {
    match status {
        None => "daemon: not connected (run `agamc daemon` for incremental warm-state reuse)"@,
        Some(s) => match s.last_error {
            Some(e) => "daemon: last warm refresh failed ("@ + e@
                + "; run `agamc daemon` again after fixing the workspace)"@,
            None => match liveness_of(s.run_mode, s.last_heartbeat_unix_ms, now) {
                DaemonLiveness::Running => "daemon: connected (warm-state pipeline active; "@
                    + decimal(s.warmed_file_count as nat) + " file(s) warm)"@,
                DaemonLiveness::Snapshot => "daemon: snapshot available (last warm refresh "@
                    + relative_age_text(elapsed_ms(now, s.last_heartbeat_unix_ms))
                    + "; run `agamc daemon` for continuous incremental reuse)"@,
                DaemonLiveness::Stale => "daemon: stale (last heartbeat "@ + relative_age_text(
                    elapsed_ms(now, s.last_heartbeat_unix_ms),
                ) + "; run `agamc daemon` for incremental warm-state reuse)"@,
            },
        },
    }
}

/// What `agamc dev` reports about the daemon, from the status it recorded
/// (if any) and the current time in milliseconds since the epoch.
pub fn dev_daemon_status_message(status: Option<&DaemonStatusRecord>, now: u128) -> (r: String)
    ensures
        r@ == dev_daemon_status_text(
            match status {
                Some(s) => Some(*s),
                None => None,
            },
            now,
        ),
{
    let mut out = String::new();
    match status {
        None => {
            out.append("daemon: not connected (run `agamc daemon` for incremental warm-state reuse)");
        },
        Some(s) => {
            match &s.last_error {
                Some(e) => {
                    out.append("daemon: last warm refresh failed (");
                    out.append(e.as_str());
                    out.append("; run `agamc daemon` again after fixing the workspace)");
                },
                None => {
                    let age = now.saturating_sub(s.last_heartbeat_unix_ms);
                    match daemon_liveness(s, now) {
                        DaemonLiveness::Running => {
                            out.append("daemon: connected (warm-state pipeline active; ");
                            push_decimal(&mut out, s.warmed_file_count as u128);
                            out.append(" file(s) warm)");
                        },
                        DaemonLiveness::Snapshot => {
                            out.append("daemon: snapshot available (last warm refresh ");
                            let rel = relative_age(age);
                            out.append(rel.as_str());
                            out.append("; run `agamc daemon` for continuous incremental reuse)");
                        },
                        DaemonLiveness::Stale => {
                            out.append("daemon: stale (last heartbeat ");
                            let rel = relative_age(age);
                            out.append(rel.as_str());
                            out.append("; run `agamc daemon` for incremental warm-state reuse)");
                        },
                    }
                },
            }
        },
    }
    out
}

} // verus!

verus! {

use crate::driver::backend::{backend_cli_text, classify_platform, native_binary_extension, opt_view, render_backend_cli_value, LlvmTargetPlatform};
use crate::driver::paths::{file_stem, file_stem_of, join_path, path_join, with_extension, with_extension_of};
use crate::text::{chars_of, is_ascii_alphanumeric, is_ascii_alphanumeric_char};

/// A stem character kept in artifact names; others become `_`.
pub open spec fn stage_char(c: char) -> char {
    if is_ascii_alphanumeric_char(c) || c == '-' || c == '_' {
        c
    } else {
        '_'
    }
}

/// File name prefix of a prewarmed artifact of `entry_file`: its sanitized
/// stem (`entry` when it has none), `suffix` and the hash of its path.
pub open spec fn stage_prefix_of(stage_dir: Seq<char>, entry_file: Seq<char>, suffix: Seq<char>, hash: Seq<char>) -> Seq<char> {
    let stem = match file_stem_of(entry_file) {
        Some(s) => s,
        None => "entry"@,
    };
    join_path(stage_dir, stem.map_values(|c: char| stage_char(c)) + "_"@ + suffix + "_"@ + hash)
}

/// Path prefix, inside the prewarm stage directory `stage_dir`, of an
/// artifact built from `entry_file`; `path_hash` is the hash of the entry
/// file's path.
pub fn daemon_prewarm_stage_prefix(stage_dir: &str, entry_file: &str, suffix: &str, path_hash: &str) -> (r: String)
    ensures
        r@ == stage_prefix_of(stage_dir@, entry_file@, suffix@, path_hash@),
{
    let stem = match file_stem(entry_file) {
        Some(s) => s,
        None => "entry".to_string(),
    };
    let sv = chars_of(stem.as_str());
    let mut name = String::new();
    let mut i: usize = 0;
    while i < sv.len()
        invariant
            i <= sv.len(),
            name@ == sv@.take(i as int).map_values(|c: char| stage_char(c)),
        decreases sv.len() - i,
    {
        let c = sv[i];
        let k = if is_ascii_alphanumeric(c) || c == '-' || c == '_' {
            c
        } else {
            '_'
        };
        crate::text::push_char(&mut name, k);
        assert(sv@.take(i + 1).map_values(|c: char| stage_char(c)) =~= sv@.take(i as int).map_values(
            |c: char| stage_char(c),
        ).push(k));
        i += 1;
    }
    assert(sv@.take(sv.len() as int) =~= sv@);
    proof {
        reveal_strlit("entry");
    }
    name.append("_");
    name.append(suffix);
    name.append("_");
    name.append(path_hash);
    path_join(stage_dir, name.as_str())
}

/// Where the daemon stages the portable package of `entry_file`.
pub fn daemon_prewarm_package_output(stage_dir: &str, entry_file: &str, path_hash: &str) -> (r: String)
    ensures
        r@ == with_extension_of(stage_prefix_of(stage_dir@, entry_file@, "package"@, path_hash@), "agpkg.json"@),
{
    let prefix = daemon_prewarm_stage_prefix(stage_dir, entry_file, "package", path_hash);
    with_extension(prefix.as_str(), "agpkg.json")
}

/// Where the daemon stages a `backend` build of `entry_file` for `target`:
/// the stage prefix, with an `exe` extension where the target's binaries
/// carry one.
pub fn daemon_prewarm_build_output(
    stage_dir: &str,
    entry_file: &str,
    path_hash: &str,
    target: Option<&str>,
    backend: Backend,
    host: LlvmTargetPlatform,
) -> (r: String)
    ensures
        ({
            let prefix = stage_prefix_of(stage_dir@, entry_file@, backend_cli_text(backend), path_hash@);
            r@ == (if classify_platform(opt_view(target), host) == LlvmTargetPlatform::Windows {
                with_extension_of(prefix, "exe"@)
            } else {
                prefix
            })
        }),
{
    let prefix = daemon_prewarm_stage_prefix(stage_dir, entry_file, render_backend_cli_value(backend), path_hash);
    match native_binary_extension(target, host) {
        Some(_) => with_extension(prefix.as_str(), "exe"),
        None => prefix,
    }
}

} // verus!

verus! {

pub open spec fn status_word(status: DaemonStatusRecord, now: u128) -> Seq<char> {
    if status.last_error is Some {
        "status: error"@
    } else {
        match liveness_of(status.run_mode, status.last_heartbeat_unix_ms, now) {
            DaemonLiveness::Running => "status: running"@,
            DaemonLiveness::Snapshot => "status: snapshot"@,
            DaemonLiveness::Stale => "status: stale"@,
        }
    }
}

pub open spec fn mode_line(mode: DaemonRunMode) -> Seq<char> {
    match mode {
        DaemonRunMode::BackgroundService => "mode: background service"@,
        DaemonRunMode::ForegroundLoop => "mode: foreground loop"@,
        DaemonRunMode::OneShot => "mode: one-shot snapshot"@,
    }
}

pub open spec fn diff_line(d: DaemonDiffSummary) -> Seq<char> {
    if d.manifest_changed {
        "last diff: manifest changed, full warm-state reset"@
    } else {
        "last diff: +"@ + decimal(d.added_files as nat) + " ~"@ + decimal(d.changed_files as nat)
            + " -"@ + decimal(d.removed_files as nat) + " ="@ + decimal(d.unchanged_files as nat)
    }
}

pub open spec fn push_some(lines: Seq<Seq<char>>, line: Option<Seq<char>>) -> Seq<Seq<char>> {
    match line {
        Some(l) => lines.push(l),
        None => lines,
    }
}

/// The lines of `agamc daemon status` about a recorded status, seen at
/// `now`; `artifact_is_file` tells whether the recorded package artifact
/// path names a file.
pub open spec fn status_report_lines(status: DaemonStatusRecord, now: u128, artifact_is_file: bool) -> Seq<Seq<char>> {
    let fixed = seq![
        status_word(status, now),
        "pid: "@ + decimal(status.pid as nat),
        mode_line(status.run_mode),
        "heartbeat: "@ + relative_age_text(elapsed_ms(now, status.last_heartbeat_unix_ms)),
        "tracked files: "@ + decimal(status.snapshot_file_count as nat),
        "warm files: "@ + decimal(status.warmed_file_count as nat),
        "warm versions: "@ + decimal(status.warmed_version_count as nat),
        "parsed declarations: "@ + decimal(status.ast_decl_count as nat),
        "lowered functions: HIR "@ + decimal(status.hir_function_count as nat) + " / MIR "@
            + decimal(status.mir_function_count as nat),
        diff_line(status.last_diff),
    ];
    let a = push_some(
        fixed,
        match status.last_error {
            Some(e) => Some("last error: "@ + e@),
            None => None,
        },
    );
    let b = push_some(
        a,
        if status.prewarm.prewarmed_total_files > 0 {
            Some(
                "warm index: "@ + decimal(status.prewarm.prewarmed_file_count as nat) + "/"@
                    + decimal(status.prewarm.prewarmed_total_files as nat) + " file(s) prewarmed"@,
            )
        } else {
            None
        },
    );
    let c = push_some(b, prewarm_status_text(status.prewarm, artifact_is_file));
    push_some(
        c,
        match status.prewarm.last_error {
            Some(e) => Some("last prewarm error: "@ + e@),
            None => None,
        },
    )
}

fn labeled_count(label: &str, n: u128) -> (r: String)
    ensures
        r@ == label@ + decimal(n as nat),
{
    let mut s = String::new();
    s.append(label);
    push_decimal(&mut s, n);
    s
}

/// The lines `agamc daemon status` prints about a recorded status, seen at
/// `now` (milliseconds since the epoch): its state, process, mode, age,
/// counters, last refresh and prewarm stage; `artifact_is_file` tells
/// whether the recorded package artifact path names a file.
pub fn daemon_status_report(status: &DaemonStatusRecord, now: u128, artifact_is_file: bool) -> (r: Vec<String>)
    ensures
        crate::text::strings_view(r@) == status_report_lines(*status, now, artifact_is_file),
{
    let mut lines: Vec<String> = Vec::new();
    let word = if status.last_error.is_some() {
        "status: error"
    } else {
        match daemon_liveness(status, now) {
            DaemonLiveness::Running => "status: running",
            DaemonLiveness::Snapshot => "status: snapshot",
            DaemonLiveness::Stale => "status: stale",
        }
    };
    lines.push(word.to_string());
    lines.push(labeled_count("pid: ", status.pid as u128));
    let mode = match status.run_mode {
        DaemonRunMode::BackgroundService => "mode: background service",
        DaemonRunMode::ForegroundLoop => "mode: foreground loop",
        DaemonRunMode::OneShot => "mode: one-shot snapshot",
    };
    lines.push(mode.to_string());
    let mut heartbeat = String::new();
    heartbeat.append("heartbeat: ");
    let age = relative_age(now.saturating_sub(status.last_heartbeat_unix_ms));
    heartbeat.append(age.as_str());
    lines.push(heartbeat);
    lines.push(labeled_count("tracked files: ", status.snapshot_file_count as u128));
    lines.push(labeled_count("warm files: ", status.warmed_file_count as u128));
    lines.push(labeled_count("warm versions: ", status.warmed_version_count as u128));
    lines.push(labeled_count("parsed declarations: ", status.ast_decl_count as u128));
    let mut lowered = labeled_count("lowered functions: HIR ", status.hir_function_count as u128);
    lowered.append(" / MIR ");
    push_decimal(&mut lowered, status.mir_function_count as u128);
    lines.push(lowered);
    let d = &status.last_diff;
    if d.manifest_changed {
        lines.push("last diff: manifest changed, full warm-state reset".to_string());
    } else {
        let mut s = labeled_count("last diff: +", d.added_files as u128);
        s.append(" ~");
        push_decimal(&mut s, d.changed_files as u128);
        s.append(" -");
        push_decimal(&mut s, d.removed_files as u128);
        s.append(" =");
        push_decimal(&mut s, d.unchanged_files as u128);
        lines.push(s);
    }
    let ghost fixed = crate::text::strings_view(lines@);
    assert(fixed =~= seq![
        status_word(*status, now),
        "pid: "@ + decimal(status.pid as nat),
        mode_line(status.run_mode),
        "heartbeat: "@ + relative_age_text(elapsed_ms(now, status.last_heartbeat_unix_ms)),
        "tracked files: "@ + decimal(status.snapshot_file_count as nat),
        "warm files: "@ + decimal(status.warmed_file_count as nat),
        "warm versions: "@ + decimal(status.warmed_version_count as nat),
        "parsed declarations: "@ + decimal(status.ast_decl_count as nat),
        "lowered functions: HIR "@ + decimal(status.hir_function_count as nat) + " / MIR "@
            + decimal(status.mir_function_count as nat),
        diff_line(status.last_diff),
    ]);
    if let Some(e) = &status.last_error {
        let mut s = String::new();
        s.append("last error: ");
        s.append(e.as_str());
        let ghost before = crate::text::strings_view(lines@);
        lines.push(s);
        assert(crate::text::strings_view(lines@) =~= before.push(s@));
    }
    if status.prewarm.prewarmed_total_files > 0 {
        let mut s = labeled_count("warm index: ", status.prewarm.prewarmed_file_count as u128);
        s.append("/");
        push_decimal(&mut s, status.prewarm.prewarmed_total_files as u128);
        s.append(" file(s) prewarmed");
        let ghost before = crate::text::strings_view(lines@);
        lines.push(s);
        assert(crate::text::strings_view(lines@) =~= before.push(s@));
    }
    if let Some(m) = daemon_prewarm_status_message(&status.prewarm, artifact_is_file) {
        let ghost before = crate::text::strings_view(lines@);
        lines.push(m);
        assert(crate::text::strings_view(lines@) =~= before.push(m@));
    }
    if let Some(e) = &status.prewarm.last_error {
        let mut s = String::new();
        s.append("last prewarm error: ");
        s.append(e.as_str());
        let ghost before = crate::text::strings_view(lines@);
        lines.push(s);
        assert(crate::text::strings_view(lines@) =~= before.push(s@));
    }
    lines
}

} // verus!

verus! {

use crate::driver::toolchain::contains_string;

/// Whether a refresh touched a manifest: some added, changed or removed
/// path is a manifest of the previous or of the next snapshot.
pub open spec fn diff_touches_manifest(
    previous_manifests: Seq<Seq<char>>,
    next_manifests: Seq<Seq<char>>,
    touched: Seq<Seq<char>>,
) -> bool {
    exists|i: int|
        0 <= i < touched.len() && (previous_manifests.contains(#[trigger] touched[i])
            || next_manifests.contains(touched[i]))
}

/// Whether the files a refresh added, changed or removed include a manifest
/// of the workspace before or after it.
pub fn snapshot_diff_touches_manifest(
    previous_manifests: &Vec<String>,
    next_manifests: &Vec<String>,
    added: &Vec<String>,
    changed: &Vec<String>,
    removed: &Vec<String>,
) -> (r: bool)
    ensures
        r == diff_touches_manifest(
            crate::text::strings_view(previous_manifests@),
            crate::text::strings_view(next_manifests@),
            crate::text::strings_view(added@) + crate::text::strings_view(changed@)
                + crate::text::strings_view(removed@),
        ),
{
    let ghost prev = crate::text::strings_view(previous_manifests@);
    let ghost next = crate::text::strings_view(next_manifests@);
    let ghost touched = crate::text::strings_view(added@) + crate::text::strings_view(changed@)
        + crate::text::strings_view(removed@);
    let lists = vec![added, changed, removed];
    let ghost offsets = seq![0int, added.len() as int, added.len() + changed.len()];
    let mut l: usize = 0;
    while l < 3
        invariant
            l <= 3,
            lists@ == seq![added, changed, removed],
            prev == crate::text::strings_view(previous_manifests@),
            next == crate::text::strings_view(next_manifests@),
            touched == crate::text::strings_view(added@) + crate::text::strings_view(changed@)
                + crate::text::strings_view(removed@),
            forall|i: int|
                0 <= i < (if l == 0 { 0 } else if l == 1 { added.len() as int } else if l == 2 {
                    added.len() + changed.len()
                } else {
                    touched.len() as int
                }) ==> !prev.contains(#[trigger] touched[i]) && !next.contains(touched[i]),
        decreases 3 - l,
    {
        let list = lists[l];
        let ghost base: int = if l == 0 { 0 } else if l == 1 { added.len() as int } else {
            added.len() + changed.len()
        };
        let mut k: usize = 0;
        while k < list.len()
            invariant
                l < 3,
                k <= list.len(),
                lists@ == seq![added, changed, removed],
                list == lists@[l as int],
                base == (if l == 0 { 0 } else if l == 1 { added.len() as int } else {
                    added.len() + changed.len()
                }),
                prev == crate::text::strings_view(previous_manifests@),
                next == crate::text::strings_view(next_manifests@),
                touched == crate::text::strings_view(added@) + crate::text::strings_view(changed@)
                    + crate::text::strings_view(removed@),
                forall|i: int| 0 <= i < base + k ==> !prev.contains(#[trigger] touched[i]) && !next.contains(touched[i]),
            decreases list.len() - k,
        {
            let p = list[k].as_str();
            assert(touched[base + k] == p@);
            if contains_string(previous_manifests, p) || contains_string(next_manifests, p) {
                assert(prev.contains(touched[base + k]) || next.contains(touched[base + k]));
                return true;
            }
            k += 1;
        }
        l += 1;
    }
    false
}

} // verus!

verus! {

/// The prewarmed package the daemon holds for `entry_file`, if it can be
/// reused: the package is ready, was built from that very file, from
/// content whose hash is `source_hash`, and its artifact path is recorded.
pub open spec fn reusable_prewarm_artifact(p: DaemonPrewarmSummary, entry_file: Seq<char>, source_hash: Seq<char>) -> Option<Seq<char>> {
    if p.package_ready && opt_string_view(p.entry_path) == Some(entry_file) && opt_string_view(
        p.entry_content_hash,
    ) == Some(source_hash) {
        opt_string_view(p.package_artifact_path)
    } else {
        None
    }
}

/// The artifact of the prewarmed package to reuse for `entry_file` whose
/// content hashes to `source_hash`, if the daemon's prewarm stage holds a
/// matching one.
pub fn daemon_prewarmed_entry_artifact(prewarm: &DaemonPrewarmSummary, entry_file: &str, source_hash: &str) -> (r: Option<String>)
    ensures
        opt_string_view(r) == reusable_prewarm_artifact(*prewarm, entry_file@, source_hash@),
{
    if !prewarm.package_ready {
        return None;
    }
    let entry_matches = match &prewarm.entry_path {
        Some(p) => str_eq(p.as_str(), entry_file),
        None => false,
    };
    if !entry_matches {
        return None;
    }
    let hash_matches = match &prewarm.entry_content_hash {
        Some(h) => str_eq(h.as_str(), source_hash),
        None => false,
    };
    if !hash_matches {
        return None;
    }
    match &prewarm.package_artifact_path {
        Some(a) => Some(crate::text::copy_str(a.as_str())),
        None => None,
    }
}

} // verus!

verus! {

/// The files a workspace snapshot tracks.
#[derive(Clone, Debug)]
pub struct WorkspaceSnapshotFiles {
    pub manifests: Vec<String>,
    pub source_files: Vec<String>,
    pub test_files: Vec<String>,
}

/// What changed between two snapshots.
#[derive(Clone, Debug)]
pub struct WorkspaceSnapshotChanges {
    pub added_files: Vec<String>,
    pub changed_files: Vec<String>,
    pub removed_files: Vec<String>,
    pub unchanged_files: Vec<String>,
}

/// Number of files a snapshot tracks.
pub fn tracked_snapshot_file_count(snapshot: &WorkspaceSnapshotFiles) -> (r: usize)
    requires
        snapshot.manifests.len() + snapshot.source_files.len() + snapshot.test_files.len()
            <= usize::MAX,
    ensures
        r == snapshot.manifests.len() + snapshot.source_files.len() + snapshot.test_files.len(),
{
    snapshot.manifests.len() + snapshot.source_files.len() + snapshot.test_files.len()
}

/// The summary of a refresh: the counts of the diff against the previous
/// snapshot, or, on a first refresh, every tracked file as added.
pub fn summarize_workspace_diff(
    previous: Option<&WorkspaceSnapshotFiles>,
    next: &WorkspaceSnapshotFiles,
    diff: Option<&WorkspaceSnapshotChanges>,
) -> (r: DaemonDiffSummary)
    requires
        next.manifests.len() + next.source_files.len() + next.test_files.len() <= usize::MAX,
    ensures
        match (previous, diff) {
            (Some(p), Some(d)) => r.added_files == d.added_files.len() && r.changed_files
                == d.changed_files.len() && r.removed_files == d.removed_files.len()
                && r.unchanged_files == d.unchanged_files.len() && r.manifest_changed
                == diff_touches_manifest(
                crate::text::strings_view(p.manifests@),
                crate::text::strings_view(next.manifests@),
                crate::text::strings_view(d.added_files@) + crate::text::strings_view(
                    d.changed_files@,
                ) + crate::text::strings_view(d.removed_files@),
            ),
            _ => r.added_files == next.manifests.len() + next.source_files.len()
                + next.test_files.len() && r.changed_files == 0 && r.removed_files == 0
                && r.unchanged_files == 0 && !r.manifest_changed,
        },
{
    match (previous, diff) {
        (Some(p), Some(d)) => DaemonDiffSummary {
            added_files: d.added_files.len(),
            changed_files: d.changed_files.len(),
            removed_files: d.removed_files.len(),
            unchanged_files: d.unchanged_files.len(),
            manifest_changed: snapshot_diff_touches_manifest(
                &p.manifests,
                &next.manifests,
                &d.added_files,
                &d.changed_files,
                &d.removed_files,
            ),
        },
        _ => DaemonDiffSummary {
            added_files: tracked_snapshot_file_count(next),
            changed_files: 0,
            removed_files: 0,
            unchanged_files: 0,
            manifest_changed: false,
        },
    }
}

/// What a refresh snapshots: the entry file of a workspace without a
/// manifest, its root otherwise.
pub fn daemon_refresh_snapshot_hint(root: &str, has_manifest: bool, entry_file: &str) -> (r: String)
    ensures
        r@ == (if has_manifest {
            root@
        } else {
            entry_file@
        }),
{
    if has_manifest {
        crate::text::copy_str(root)
    } else {
        crate::text::copy_str(entry_file)
    }
}

} // verus!

verus! {

use crate::strset::StrSet;

/// The daemon's state between refreshes: the snapshot its warm state was
/// built against, the files holding warm state, and the last prewarm's
/// summary.
#[derive(Debug)]
pub struct DaemonSession {
    pub snapshot: Option<WorkspaceSnapshotFiles>,
    pub cache: StrSet,
    pub last_prewarm: DaemonPrewarmSummary,
}

/// Applies a refresh's diff to a daemon session, reusing warm state where
/// it stays valid.
pub struct IncrementalPipeline {
    pub session: DaemonSession,
}

/// Whether applying `diff` must drop all warm state: the session has a
/// previous snapshot and the diff touches a manifest of it or of `next`.
pub open spec fn refresh_resets_cache(
    previous: Option<WorkspaceSnapshotFiles>,
    next: WorkspaceSnapshotFiles,
    diff: WorkspaceSnapshotChanges,
) -> bool {
    match previous {
        Some(p) => diff_touches_manifest(
            crate::text::strings_view(p.manifests@),
            crate::text::strings_view(next.manifests@),
            crate::text::strings_view(diff.added_files@) + crate::text::strings_view(
                diff.changed_files@,
            ) + crate::text::strings_view(diff.removed_files@),
        ),
        None => false,
    }
}

/// The files that keep warm state after a refresh: none when it resets the
/// cache, otherwise those that held it, less the removed files. Changed
/// files keep their previous state until a new version is warmed.
pub open spec fn warm_files_after(
    before: Set<Seq<char>>,
    previous: Option<WorkspaceSnapshotFiles>,
    next: WorkspaceSnapshotFiles,
    diff: WorkspaceSnapshotChanges,
) -> Set<Seq<char>> {
    if refresh_resets_cache(previous, next, diff) {
        Set::empty()
    } else {
        before.difference(crate::text::strings_view(diff.removed_files@).to_set())
    }
}

impl IncrementalPipeline {
    pub fn new(session: DaemonSession) -> (r: Self)
        ensures
            r.session == session,
    {
        IncrementalPipeline { session }
    }

    /// Moves the session to `next_snapshot`: every file's warm state is
    /// dropped when the diff touches a manifest of the previous or the next
    /// snapshot, otherwise only that of the removed files.
    pub fn apply_diff(&mut self, next_snapshot: WorkspaceSnapshotFiles, diff: &WorkspaceSnapshotChanges)
        requires
            old(self).session.cache.wf(),
        ensures
            final(self).session.cache.wf(),
            final(self).session.cache@.to_set() == warm_files_after(
                old(self).session.cache@.to_set(),
                old(self).session.snapshot,
                next_snapshot,
                *diff,
            ),
            final(self).session.snapshot == Some(next_snapshot),
            final(self).session.last_prewarm == old(self).session.last_prewarm,
    {
        let manifest_changed = match &self.session.snapshot {
            Some(previous) => snapshot_diff_touches_manifest(
                &previous.manifests,
                &next_snapshot.manifests,
                &diff.added_files,
                &diff.changed_files,
                &diff.removed_files,
            ),
            None => false,
        };
        if manifest_changed {
            self.session.cache = StrSet::new();
            assert(self.session.cache@.to_set() =~= Set::<Seq<char>>::empty());
            self.session.snapshot = Some(next_snapshot);
            return;
        }
        let ghost before = self.session.cache@.to_set();
        let ghost removed = crate::text::strings_view(diff.removed_files@);
        let mut i: usize = 0;
        assert(removed.take(0).to_set() =~= Set::<Seq<char>>::empty());
        assert(before.difference(Set::<Seq<char>>::empty()) =~= before);
        while i < diff.removed_files.len()
            invariant
                i <= diff.removed_files.len(),
                removed == crate::text::strings_view(diff.removed_files@),
                self.session.cache.wf(),
                self.session.cache@.to_set() == before.difference(removed.take(i as int).to_set()),
                self.session.last_prewarm == old(self).session.last_prewarm,
            decreases diff.removed_files.len() - i,
        {
            self.session.cache.remove(diff.removed_files[i].as_str());
            assert(removed[i as int] == diff.removed_files@[i as int]@);
            assert(removed.take(i + 1) =~= removed.take(i as int).push(removed[i as int]));
            proof {
                removed.take(i as int).lemma_push_to_set_commute(removed[i as int]);
            }
            assert(self.session.cache@.to_set() =~= before.difference(removed.take(i + 1).to_set()));
            i += 1;
        }
        assert(removed.take(diff.removed_files.len() as int) =~= removed);
        self.session.snapshot = Some(next_snapshot);
    }
}

} // verus!

verus! {

/// A recorded daemon status, when it was written under the current schema;
/// one of another schema counts as no status.
pub fn current_daemon_status(record: DaemonStatusRecord) -> (r: Option<DaemonStatusRecord>)
    ensures
        r == (if record.schema_version == DAEMON_STATUS_SCHEMA_VERSION {
            Some(record)
        } else {
            None
        }),
{
    if record.schema_version == DAEMON_STATUS_SCHEMA_VERSION {
        Some(record)
    } else {
        None
    }
}

} // verus!
