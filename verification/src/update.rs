//! The native update coordinator: what the shell shows of an update, the journal that
//! survives restarts, and the decisions of checking, downloading, installing and confirming a
//! boot. The shell performs the network, disk and installer work that the decisions ask for.
use vstd::prelude::*;

use crate::ids::{canonical_uuid, new_uuid_v4, uuid_text};
use crate::text::{opt_text, clone_opt_string, clone_strings, contains_string, opt_str, owned, strs, trim, trim_ws};
use crate::update_rules::{
    check_rate_limited, check_retry_ms, fallback_interval, fallback_interval_ms,
    normalize_blockers, normalized_blockers, retry_delay_ms, UpdatePolicy,
    AUTO_INSTALL_IDLE_SECONDS, BOOT_FAILURE_WINDOW_MS, CHECK_FOCUS_TTL_MS, CHECK_MIN_INTERVAL_MS,
    HEARTBEAT_TIMEOUT_MS, MAX_BOOT_FAILURES, TELEMETRY_MAX_DURATION_MS,
};

verus! {

pub open spec fn sat_add(a: u64, b: u64) -> u64 {
    if a + b > u64::MAX {
        u64::MAX
    } else {
        (a + b) as u64
    }
}

pub open spec fn sat_sub(a: u64, b: u64) -> u64 {
    if a >= b {
        (a - b) as u64
    } else {
        0
    }
}

/// What the web client is shown of the native update.
pub struct DesktopUpdateSnapshot {
    pub phase: String,
    pub current_version: String,
    pub target_version: Option<String>,
    pub downloaded_bytes: u64,
    pub total_bytes: Option<u64>,
    pub progress_percent: Option<u8>,
    pub mandatory_after: Option<String>,
    pub error_code: Option<String>,
    pub blockers: Vec<String>,
    pub install_ready: bool,
    pub quarantined: bool,
    pub channel: String,
    pub mandatory: bool,
}

#[verifier::ext_equal]
pub struct SnapshotView {
    pub phase: Seq<char>,
    pub current_version: Seq<char>,
    pub target_version: Option<Seq<char>>,
    pub downloaded_bytes: u64,
    pub total_bytes: Option<u64>,
    pub progress_percent: Option<u8>,
    pub mandatory_after: Option<Seq<char>>,
    pub error_code: Option<Seq<char>>,
    pub blockers: Seq<Seq<char>>,
    pub install_ready: bool,
    pub quarantined: bool,
    pub channel: Seq<char>,
    pub mandatory: bool,
}

impl View for DesktopUpdateSnapshot {
    type V = SnapshotView;

    open spec fn view(&self) -> SnapshotView {
        SnapshotView {
            phase: self.phase@,
            current_version: self.current_version@,
            target_version: opt_str(self.target_version),
            downloaded_bytes: self.downloaded_bytes,
            total_bytes: self.total_bytes,
            progress_percent: self.progress_percent,
            mandatory_after: opt_str(self.mandatory_after),
            error_code: opt_str(self.error_code),
            blockers: strs(self.blockers@),
            install_ready: self.install_ready,
            quarantined: self.quarantined,
            channel: self.channel@,
            mandatory: self.mandatory,
        }
    }
}

/// The snapshot of a shell with no update in progress.
pub open spec fn idle_view(current_version: Seq<char>, channel: Seq<char>) -> SnapshotView {
    SnapshotView {
        phase: "idle"@,
        current_version,
        target_version: None,
        downloaded_bytes: 0,
        total_bytes: None,
        progress_percent: None,
        mandatory_after: None,
        error_code: None,
        blockers: Seq::empty(),
        install_ready: false,
        quarantined: false,
        channel,
        mandatory: false,
    }
}

impl DesktopUpdateSnapshot {
    pub fn idle(current_version: String, channel: String) -> (r: Self)
        ensures
            r@ == idle_view(current_version@, channel@),
    {
        let r = DesktopUpdateSnapshot {
            phase: owned("idle"),
            current_version,
            target_version: None,
            downloaded_bytes: 0,
            total_bytes: None,
            progress_percent: None,
            mandatory_after: None,
            error_code: None,
            blockers: Vec::new(),
            install_ready: false,
            quarantined: false,
            channel,
            mandatory: false,
        };
        proof {
            assert(r@ =~= idle_view(current_version@, channel@));
        }
        r
    }

    pub fn duplicate(&self) -> (r: Self)
        ensures
            r@ == self@,
    {
        DesktopUpdateSnapshot {
            phase: self.phase.clone(),
            current_version: self.current_version.clone(),
            target_version: clone_opt_string(&self.target_version),
            downloaded_bytes: self.downloaded_bytes,
            total_bytes: self.total_bytes,
            progress_percent: self.progress_percent,
            mandatory_after: clone_opt_string(&self.mandatory_after),
            error_code: clone_opt_string(&self.error_code),
            blockers: clone_strings(&self.blockers),
            install_ready: self.install_ready,
            quarantined: self.quarantined,
            channel: self.channel.clone(),
            mandatory: self.mandatory,
        }
    }
}

/// What the web client reports about its safe points.
pub struct DesktopUpdateSafety {
    pub blockers: Vec<String>,
    pub window_hidden: bool,
}

impl Default for DesktopUpdateSafety {
    fn default() -> (r: Self)
        ensures
            r.blockers@.len() == 0,
            !r.window_hidden,
    {
        DesktopUpdateSafety { blockers: Vec::new(), window_hidden: false }
    }
}

/// What the web client reports once it has booted.
pub struct DesktopRuntimeReadiness {
    pub web_build_id: String,
    pub route: String,
    pub cache_ready: bool,
}

/// The persistent record of the update in progress, kept across restarts.
pub struct UpdateJournal {
    pub install_id: String,
    pub channel: String,
    pub pending_version: Option<String>,
    pub pending_from_version: Option<String>,
    pub pending_release_id: Option<String>,
    pub pending_cohort: Option<u64>,
    pub pending_started_at_ms: Option<u64>,
    pub boot_started_at_ms: Option<u64>,
    pub boot_failures: u8,
    pub quarantined_versions: Vec<String>,
    pub last_error_code: Option<String>,
    pub cached_runtime_ready: bool,
}

#[verifier::ext_equal]
pub struct JournalView {
    pub install_id: Seq<char>,
    pub channel: Seq<char>,
    pub pending_version: Option<Seq<char>>,
    pub pending_from_version: Option<Seq<char>>,
    pub pending_release_id: Option<Seq<char>>,
    pub pending_cohort: Option<u64>,
    pub pending_started_at_ms: Option<u64>,
    pub boot_started_at_ms: Option<u64>,
    pub boot_failures: u8,
    pub quarantined_versions: Seq<Seq<char>>,
    pub last_error_code: Option<Seq<char>>,
    pub cached_runtime_ready: bool,
}

impl View for UpdateJournal {
    type V = JournalView;

    open spec fn view(&self) -> JournalView {
        JournalView {
            install_id: self.install_id@,
            channel: self.channel@,
            pending_version: opt_str(self.pending_version),
            pending_from_version: opt_str(self.pending_from_version),
            pending_release_id: opt_str(self.pending_release_id),
            pending_cohort: self.pending_cohort,
            pending_started_at_ms: self.pending_started_at_ms,
            boot_started_at_ms: self.boot_started_at_ms,
            boot_failures: self.boot_failures,
            quarantined_versions: strs(self.quarantined_versions@),
            last_error_code: opt_str(self.last_error_code),
            cached_runtime_ready: self.cached_runtime_ready,
        }
    }
}

impl Default for UpdateJournal {
    fn default() -> (r: Self)
        ensures
            r@.install_id.len() == 0,
            r@.channel.len() == 0,
            r@.pending_version is None,
            r@.pending_from_version is None,
            r@.pending_release_id is None,
            r@.pending_cohort is None,
            r@.pending_started_at_ms is None,
            r@.boot_started_at_ms is None,
            r@.boot_failures == 0,
            r@.quarantined_versions.len() == 0,
            r@.last_error_code is None,
            !r@.cached_runtime_ready,
    {
        UpdateJournal {
            install_id: String::new(),
            channel: String::new(),
            pending_version: None,
            pending_from_version: None,
            pending_release_id: None,
            pending_cohort: None,
            pending_started_at_ms: None,
            boot_started_at_ms: None,
            boot_failures: 0,
            quarantined_versions: Vec::new(),
            last_error_code: None,
            cached_runtime_ready: false,
        }
    }
}

impl UpdateJournal {
    pub fn duplicate(&self) -> (r: Self)
        ensures
            r@ == self@,
    {
        UpdateJournal {
            install_id: self.install_id.clone(),
            channel: self.channel.clone(),
            pending_version: clone_opt_string(&self.pending_version),
            pending_from_version: clone_opt_string(&self.pending_from_version),
            pending_release_id: clone_opt_string(&self.pending_release_id),
            pending_cohort: self.pending_cohort,
            pending_started_at_ms: self.pending_started_at_ms,
            boot_started_at_ms: self.boot_started_at_ms,
            boot_failures: self.boot_failures,
            quarantined_versions: clone_strings(&self.quarantined_versions),
            last_error_code: clone_opt_string(&self.last_error_code),
            cached_runtime_ready: self.cached_runtime_ready,
        }
    }
}

/// A report of one step of an update, sent to the telemetry endpoint.
pub struct DesktopUpdateEvent {
    pub event_id: String,
    pub session_id: String,
    pub release_id: String,
    pub from_version: String,
    pub to_version: String,
    pub channel: String,
    pub cohort: Option<u64>,
    pub phase: String,
    pub result: String,
    pub error_code: Option<String>,
    pub duration_ms: u64,
}

/// The coordinator's whole state, as a value.
#[verifier::ext_equal]
pub struct CoordinatorView {
    pub snapshot: SnapshotView,
    pub safety_blockers: Seq<Seq<char>>,
    pub safety_window_hidden: bool,
    /// Version of the downloaded update that the shell holds, if any.
    pub pending_update: Option<Seq<char>>,
    pub downloaded_bytes: Option<Seq<u8>>,
    pub check_in_flight: bool,
    pub install_in_flight: bool,
    pub last_check_at_ms: u64,
    pub next_check_at_ms: u64,
    pub check_failures: usize,
    pub last_heartbeat_at_ms: u64,
    pub runtime_visible: bool,
    pub hang_dump_captured: bool,
    pub journal: JournalView,
    pub release_id: Option<Seq<char>>,
    pub cohort: Option<u64>,
}

/// Decides the steps of a native update. The shell holds the updater's own objects and does
/// the I/O; this type holds everything the decisions read.
pub struct DesktopUpdateCoordinator {
    snapshot: DesktopUpdateSnapshot,
    safety: DesktopUpdateSafety,
    download: Option<(String, Vec<u8>)>,
    check_in_flight: bool,
    install_in_flight: bool,
    last_check_at_ms: u64,
    next_check_at_ms: u64,
    check_failures: usize,
    last_heartbeat_at_ms: u64,
    runtime_visible: bool,
    hang_dump_captured: bool,
    journal: UpdateJournal,
    release_id: Option<String>,
    cohort: Option<u64>,
}

/// The coordinator's own bookkeeping agrees with itself: an update is offered for install only
/// while its download is held and no blocker is reported, a download is held together with the
/// update it belongs to, and neither a running check nor a running install overlaps a held
/// download.
pub open spec fn coordinator_consistent(v: CoordinatorView) -> bool {
    &&& v.snapshot.install_ready ==> v.downloaded_bytes is Some
    &&& v.snapshot.install_ready ==> v.snapshot.blockers.len() == 0
    &&& (v.downloaded_bytes is Some) == (v.pending_update is Some)
    &&& v.install_in_flight ==> v.downloaded_bytes is None && !v.check_in_flight
    &&& v.check_in_flight ==> v.downloaded_bytes is None
}

impl DesktopUpdateCoordinator {
    /// Every coordinator is consistent: start-up makes it so and every step keeps it so.
    #[verifier::type_invariant]
    spec fn consistent(self) -> bool {
        coordinator_consistent(self@)
    }
}

impl View for DesktopUpdateCoordinator {
    type V = CoordinatorView;

    closed spec fn view(&self) -> CoordinatorView {
        CoordinatorView {
            snapshot: self.snapshot@,
            safety_blockers: strs(self.safety.blockers@),
            safety_window_hidden: self.safety.window_hidden,
            pending_update: match self.download {
                Some(d) => Some(d.0@),
                None => None,
            },
            downloaded_bytes: match self.download {
                Some(d) => Some(d.1@),
                None => None,
            },
            check_in_flight: self.check_in_flight,
            install_in_flight: self.install_in_flight,
            last_check_at_ms: self.last_check_at_ms,
            next_check_at_ms: self.next_check_at_ms,
            check_failures: self.check_failures,
            last_heartbeat_at_ms: self.last_heartbeat_at_ms,
            runtime_visible: self.runtime_visible,
            hang_dump_captured: self.hang_dump_captured,
            journal: self.journal@,
            release_id: opt_str(self.release_id),
            cohort: self.cohort,
        }
    }
}

// ---------------------------------------------------------------------------------------------
// The model: each step of the coordinator as a function of its state.
// ---------------------------------------------------------------------------------------------
/// The journal with no update pending.
pub open spec fn journal_without_pending(j: JournalView) -> JournalView {
    JournalView {
        pending_version: None,
        pending_from_version: None,
        pending_release_id: None,
        pending_cohort: None,
        pending_started_at_ms: None,
        ..j
    }
}

/// The journal as it is read at start-up, with a valid install id and a known channel.
pub open spec fn normalized_journal(
    j: JournalView,
    install_id_valid: bool,
    fresh_install_id: Seq<char>,
    requested_channel: Option<Seq<char>>,
) -> JournalView {
    let with_id = if install_id_valid {
        j
    } else {
        JournalView { install_id: fresh_install_id, ..j }
    };
    let requested = match requested_channel {
        Some(channel) => JournalView { channel, ..with_id },
        None => with_id,
    };
    if requested.channel == "canary"@ {
        requested
    } else {
        JournalView { channel: "stable"@, ..requested }
    }
}

/// Boot failures counted for a start of the pending version: one more when the previous
/// start of it was within the failure window, else one.
pub open spec fn next_boot_failures(j: JournalView, now: u64) -> u8 {
    match j.boot_started_at_ms {
        Some(previous) => if sat_sub(now, previous) <= BOOT_FAILURE_WINDOW_MS {
            if j.boot_failures == u8::MAX {
                u8::MAX
            } else {
                (j.boot_failures + 1) as u8
            }
        } else {
            1
        },
        None => j.boot_failures,
    }
}

/// The journal and snapshot after a start of `current` version at `now`.
pub open spec fn boot_journal(j: JournalView, current: Seq<char>, now: u64) -> JournalView {
    if j.pending_version == Some(current) {
        let failures = next_boot_failures(j, now);
        let counted = JournalView { boot_failures: failures, boot_started_at_ms: Some(now), ..j };
        if failures >= MAX_BOOT_FAILURES && !j.quarantined_versions.contains(current) {
            JournalView {
                quarantined_versions: j.quarantined_versions.push(current),
                ..counted
            }
        } else {
            counted
        }
    } else if j.pending_version is Some {
        JournalView {
            last_error_code: Some("install_not_applied"@),
            boot_started_at_ms: None,
            boot_failures: 0,
            ..journal_without_pending(j)
        }
    } else {
        j
    }
}

pub open spec fn boot_snapshot(j: JournalView, current: Seq<char>, now: u64) -> SnapshotView {
    let idle = idle_view(current, j.channel);
    if j.pending_version == Some(current) {
        if next_boot_failures(j, now) >= MAX_BOOT_FAILURES {
            SnapshotView {
                target_version: Some(current),
                phase: "quarantined"@,
                quarantined: true,
                error_code: Some("boot_verification_failed"@),
                ..idle
            }
        } else {
            SnapshotView { target_version: Some(current), phase: "verifying_boot"@, ..idle }
        }
    } else {
        idle
    }
}

/// The coordinator at start-up, from the stored journal.
pub open spec fn recovered(
    stored: JournalView,
    current: Seq<char>,
    now: u64,
    requested_channel: Option<Seq<char>>,
    install_id_valid: bool,
    fresh_install_id: Seq<char>,
) -> CoordinatorView {
    let j = normalized_journal(stored, install_id_valid, fresh_install_id, requested_channel);
    let journal = boot_journal(j, current, now);
    CoordinatorView {
        snapshot: boot_snapshot(j, current, now),
        safety_blockers: Seq::empty(),
        safety_window_hidden: false,
        pending_update: None,
        downloaded_bytes: None,
        check_in_flight: false,
        install_in_flight: false,
        last_check_at_ms: 0,
        next_check_at_ms: sat_add(now, fallback_interval(journal.install_id)),
        check_failures: 0,
        last_heartbeat_at_ms: now,
        runtime_visible: false,
        hang_dump_captured: false,
        journal,
        release_id: journal.pending_release_id,
        cohort: journal.pending_cohort,
    }
}

pub open spec fn with_safety(v: CoordinatorView, reported: Seq<Seq<char>>, window_hidden: bool) -> CoordinatorView {
    let blockers = normalized_blockers(reported);
    let install_ready = v.downloaded_bytes is Some && blockers.len() == 0 && !v.snapshot.quarantined;
    CoordinatorView {
        safety_blockers: blockers,
        safety_window_hidden: window_hidden,
        snapshot: SnapshotView {
            blockers,
            install_ready,
            phase: if v.downloaded_bytes is Some && !install_ready {
                "waiting_safe_point"@
            } else {
                v.snapshot.phase
            },
            ..v.snapshot
        },
        ..v
    }
}

pub open spec fn runtime_ready_accepted(route: Seq<char>, cache_ready: bool) -> bool {
    trim_ws(route).len() > 0 && cache_ready
}

/// Whether the downloaded update installs by itself now.
pub open spec fn auto_install_due(v: CoordinatorView, idle_seconds: u64, window_hidden: bool) -> bool {
    &&& v.downloaded_bytes is Some
    &&& v.snapshot.install_ready
    &&& !v.install_in_flight
    &&& (v.safety_window_hidden || window_hidden || idle_seconds >= AUTO_INSTALL_IDLE_SECONDS)
}

/// Whether a ready report confirms the boot of the version that was installed.
pub open spec fn boot_pending_confirmation(v: CoordinatorView) -> bool {
    v.journal.pending_version == Some(v.snapshot.current_version)
}

pub open spec fn after_runtime_ready(v: CoordinatorView) -> CoordinatorView {
    let current = v.snapshot.current_version;
    let j = JournalView { cached_runtime_ready: true, ..v.journal };
    if boot_pending_confirmation(v) {
        CoordinatorView {
            journal: JournalView {
                boot_started_at_ms: None,
                boot_failures: 0,
                quarantined_versions: j.quarantined_versions.filter(|q: Seq<char>| q != current),
                last_error_code: None,
                ..journal_without_pending(j)
            },
            snapshot: SnapshotView { phase: "complete"@, ..idle_view(current, j.channel) },
            ..v
        }
    } else {
        CoordinatorView { journal: j, ..v }
    }
}

/// Whether a request for a check leaves everything as it is.
pub open spec fn check_skipped(v: CoordinatorView, now: u64, force: bool, user_initiated: bool) -> bool {
    ||| v.check_in_flight
    ||| v.install_in_flight
    ||| v.downloaded_bytes is Some
    ||| force && !user_initiated && sat_sub(now, v.last_check_at_ms) < CHECK_MIN_INTERVAL_MS
    ||| !force && now < v.next_check_at_ms && (v.last_check_at_ms == 0 || sat_sub(
        now,
        v.last_check_at_ms,
    ) < CHECK_FOCUS_TTL_MS)
}

pub open spec fn after_check_start(v: CoordinatorView, now: u64) -> CoordinatorView {
    CoordinatorView {
        check_in_flight: true,
        last_check_at_ms: now,
        snapshot: SnapshotView { phase: "checking"@, error_code: None, ..v.snapshot },
        ..v
    }
}

pub open spec fn after_check_failure(v: CoordinatorView, code: Seq<char>, now: u64) -> CoordinatorView {
    let failures: usize = if v.check_failures == usize::MAX {
        usize::MAX
    } else {
        (v.check_failures + 1) as usize
    };
    let index = if failures - 1 < 3 {
        failures - 1
    } else {
        3
    };
    CoordinatorView {
        check_in_flight: false,
        check_failures: failures,
        next_check_at_ms: sat_add(now, retry_delay_ms(index)),
        snapshot: SnapshotView { phase: "failed"@, error_code: Some(code), ..v.snapshot },
        journal: JournalView { last_error_code: Some(code), ..v.journal },
        ..v
    }
}

pub open spec fn after_no_update(v: CoordinatorView, now: u64) -> CoordinatorView {
    CoordinatorView {
        check_in_flight: false,
        check_failures: 0,
        next_check_at_ms: sat_add(now, fallback_interval(v.journal.install_id)),
        snapshot: idle_view(v.snapshot.current_version, v.journal.channel),
        ..v
    }
}

/// The snapshot that announces an available update, before it is downloaded.
pub open spec fn available_snapshot(v: CoordinatorView, version: Seq<char>, policy: UpdatePolicy) -> SnapshotView {
    SnapshotView {
        phase: "available"@,
        target_version: Some(version),
        mandatory_after: opt_str(policy.mandatory_after),
        mandatory: policy.mandatory,
        channel: match policy.channel {
            Some(c) => c@,
            None => v.journal.channel,
        },
        ..v.snapshot
    }
}

pub open spec fn after_update_found(v: CoordinatorView, version: Seq<char>, policy: UpdatePolicy) -> CoordinatorView {
    let announced = available_snapshot(v, version, policy);
    let base = CoordinatorView {
        release_id: opt_str(policy.release_id),
        cohort: policy.cohort,
        ..v
    };
    if v.journal.quarantined_versions.contains(version) {
        CoordinatorView {
            check_in_flight: false,
            snapshot: SnapshotView {
                phase: "quarantined"@,
                quarantined: true,
                error_code: Some("update_quarantined"@),
                ..announced
            },
            ..base
        }
    } else {
        CoordinatorView {
            snapshot: SnapshotView {
                phase: "downloading"@,
                downloaded_bytes: 0,
                total_bytes: None,
                progress_percent: None,
                ..announced
            },
            ..base
        }
    }
}

/// Percentage of a download, when its total is known and positive.
pub open spec fn progress_percent(downloaded: u64, total: Option<u64>) -> Option<u8> {
    match total {
        Some(t) => if t > 0 {
            let scaled = if downloaded * 100 > u64::MAX {
                u64::MAX as int
            } else {
                downloaded * 100
            };
            Some(if scaled / (t as int) < 100 {
                (scaled / (t as int)) as u8
            } else {
                100u8
            })
        } else {
            None
        },
        None => None,
    }
}

pub open spec fn after_progress(v: CoordinatorView, downloaded: u64, total: Option<u64>) -> CoordinatorView {
    CoordinatorView {
        snapshot: SnapshotView {
            downloaded_bytes: downloaded,
            total_bytes: total,
            progress_percent: progress_percent(downloaded, total),
            ..v.snapshot
        },
        ..v
    }
}

pub open spec fn after_download(v: CoordinatorView, version: Seq<char>, bytes: Seq<u8>, now: u64) -> CoordinatorView {
    CoordinatorView {
        check_in_flight: false,
        check_failures: 0,
        next_check_at_ms: sat_add(now, fallback_interval(v.journal.install_id)),
        pending_update: Some(version),
        downloaded_bytes: Some(bytes),
        snapshot: SnapshotView {
            install_ready: v.snapshot.blockers.len() == 0,
            error_code: None,
            phase: "waiting_safe_point"@,
            ..v.snapshot
        },
        ..v
    }
}

/// Whether an install request goes ahead and hands the download to the installer.
pub open spec fn install_starts(v: CoordinatorView) -> bool {
    &&& !v.install_in_flight
    &&& v.snapshot.blockers.len() == 0
    &&& !v.snapshot.quarantined
    &&& v.pending_update is Some
    &&& v.downloaded_bytes is Some
}

/// The version an install is recorded under.
pub open spec fn install_target(v: CoordinatorView) -> Seq<char> {
    match v.snapshot.target_version {
        Some(t) => t,
        None => v.pending_update->0,
    }
}

pub open spec fn after_install_request(v: CoordinatorView, now: u64) -> CoordinatorView {
    if v.install_in_flight {
        v
    } else if v.snapshot.blockers.len() > 0 {
        CoordinatorView {
            snapshot: SnapshotView {
                phase: "waiting_safe_point"@,
                error_code: Some("update_blocked"@),
                ..v.snapshot
            },
            ..v
        }
    } else if !install_starts(v) {
        v
    } else {
        CoordinatorView {
            pending_update: None,
            downloaded_bytes: None,
            install_in_flight: true,
            snapshot: SnapshotView {
                phase: "installing"@,
                install_ready: false,
                error_code: None,
                ..v.snapshot
            },
            journal: JournalView {
                pending_version: Some(install_target(v)),
                pending_from_version: Some(v.snapshot.current_version),
                pending_release_id: v.release_id,
                pending_cohort: v.cohort,
                pending_started_at_ms: Some(now),
                boot_started_at_ms: None,
                boot_failures: 0,
                last_error_code: None,
                ..v.journal
            },
            ..v
        }
    }
}

pub open spec fn after_install_failure(v: CoordinatorView, version: Seq<char>, bytes: Seq<u8>) -> CoordinatorView {
    CoordinatorView {
        install_in_flight: false,
        pending_update: Some(version),
        downloaded_bytes: Some(bytes),
        snapshot: SnapshotView {
            phase: "failed"@,
            error_code: Some("install_failed"@),
            install_ready: v.snapshot.blockers.len() == 0,
            ..v.snapshot
        },
        journal: JournalView {
            last_error_code: Some("install_failed"@),
            ..journal_without_pending(v.journal)
        },
        ..v
    }
}

/// The release a telemetry event is filed under, if it has a non-empty one.
pub open spec fn telemetry_release(v: CoordinatorView) -> Option<Seq<char>> {
    let release = if v.journal.pending_release_id is Some {
        v.journal.pending_release_id
    } else {
        v.release_id
    };
    match release {
        Some(r) => if r.len() > 0 {
            Some(r)
        } else {
            None
        },
        None => None,
    }
}

pub open spec fn telemetry_from(v: CoordinatorView) -> Seq<char> {
    match v.journal.pending_from_version {
        Some(f) => f,
        None => v.snapshot.current_version,
    }
}

pub open spec fn telemetry_to(v: CoordinatorView) -> Seq<char> {
    match v.journal.pending_version {
        Some(t) => t,
        None => match v.snapshot.target_version {
            Some(t) => t,
            None => v.snapshot.current_version,
        },
    }
}

pub open spec fn telemetry_cohort(v: CoordinatorView) -> Option<u64> {
    if v.journal.pending_cohort is Some {
        v.journal.pending_cohort
    } else {
        v.cohort
    }
}

/// The telemetry event for a step, from the coordinator's state.
pub open spec fn telemetry_matches(
    v: CoordinatorView,
    e: DesktopUpdateEvent,
    event_id: Seq<char>,
    session_id: Seq<char>,
    phase: Seq<char>,
    result: Seq<char>,
    error_code: Option<Seq<char>>,
    duration_ms: u64,
) -> bool {
    &&& telemetry_release(v) == Some(e.release_id@)
    &&& e.event_id@ == event_id
    &&& e.session_id@ == session_id
    &&& e.from_version@ == telemetry_from(v)
    &&& e.to_version@ == telemetry_to(v)
    &&& e.channel@ == v.snapshot.channel
    &&& e.cohort == telemetry_cohort(v)
    &&& e.phase@ == phase
    &&& e.result@ == result
    &&& opt_str(e.error_code) == error_code
    &&& e.duration_ms == if duration_ms < TELEMETRY_MAX_DURATION_MS {
        duration_ms
    } else {
        TELEMETRY_MAX_DURATION_MS
    }
}

/// What `begin_check` hands back: the snapshot unchanged when skipped, else what the shell
/// sends and emits.
pub open spec fn check_outcome(r: CheckStart, pre: CoordinatorView, post: CoordinatorView, skipped: bool) -> bool {
    match r {
        CheckStart::Skip(s) => skipped && s@ == pre.snapshot,
        CheckStart::Start { install_id, channel, snapshot } => {
            &&& !skipped
            &&& install_id@ == pre.journal.install_id
            &&& channel@ == pre.journal.channel
            &&& snapshot@ == post.snapshot
        },
    }
}

/// What `begin_install` hands back in each case.
pub open spec fn install_outcome(r: InstallStart, pre: CoordinatorView, post: CoordinatorView, user_initiated: bool) -> bool {
    match r {
        InstallStart::Finished { result, emit } => if pre.install_in_flight {
            emit is None && match result {
                Ok(s) => s@ == pre.snapshot,
                Err(_) => false,
            }
        } else if pre.snapshot.blockers.len() > 0 {
            &&& match emit {
                Some(e) => e@ == post.snapshot,
                None => false,
            }
            &&& match result {
                Ok(s) => !user_initiated && s@ == post.snapshot,
                Err(code) => user_initiated && code@ == "update_blocked"@,
            }
        } else if pre.snapshot.quarantined {
            emit is None && match result {
                Ok(_) => false,
                Err(code) => code@ == "update_quarantined"@,
            }
        } else {
            !install_starts(pre) && emit is None && match result {
                Ok(_) => false,
                Err(code) => code@ == "update_not_ready"@,
            }
        },
        InstallStart::Install { bytes, target_version, snapshot } => {
            &&& install_starts(pre)
            &&& Some(bytes@) == pre.downloaded_bytes
            &&& target_version@ == install_target(pre)
            &&& snapshot@ == post.snapshot
        },
    }
}

/// What a request for a check asks the shell to do.
pub enum CheckStart {
    /// Nothing to do; the snapshot is returned as it is.
    Skip(DesktopUpdateSnapshot),
    /// Ask the update server, sending the install id and channel; emit the snapshot.
    Start { install_id: String, channel: String, snapshot: DesktopUpdateSnapshot },
}

/// What the shell does with an update the server offered.
pub enum FoundUpdate {
    /// The version failed to boot before: not downloaded; emit and return the snapshot.
    Quarantined(DesktopUpdateSnapshot),
    /// Download it; emit the snapshot.
    Download(DesktopUpdateSnapshot),
}

/// What a request to install asks the shell to do.
pub enum InstallStart {
    /// Return `result`, after emitting `emit` when there is one.
    Finished { result: Result<DesktopUpdateSnapshot, String>, emit: Option<DesktopUpdateSnapshot> },
    /// Persist the journal, emit the snapshot and hand `bytes` to the installer.
    Install { bytes: Vec<u8>, target_version: String, snapshot: DesktopUpdateSnapshot },
}

impl DesktopUpdateCoordinator {
    /// The coordinator at start-up, from the stored journal, the running version, the clock,
    /// the channel asked for on the command line and a fresh id for an install whose stored id
    /// is not a UUID.
    pub fn recover(
        journal: UpdateJournal,
        current_version: String,
        now: u64,
        requested_channel: Option<String>,
        install_id_valid: bool,
        fresh_install_id: String,
    ) -> (r: Self)
        ensures
            r@ == recovered(
                journal@,
                current_version@,
                now,
                opt_str(requested_channel),
                install_id_valid,
                fresh_install_id@,
            ),
    {
        let ghost stored = journal@;
        let mut journal = journal;
        if !install_id_valid {
            journal.install_id = fresh_install_id;
        }
        if let Some(channel) = requested_channel {
            journal.channel = channel;
        }
        let canary = owned("canary");
        if journal.channel != canary {
            journal.channel = owned("stable");
        }
        let ghost normalized = journal@;
        assert(normalized == normalized_journal(
            stored,
            install_id_valid,
            fresh_install_id@,
            opt_str(requested_channel),
        ));
        let mut snapshot = DesktopUpdateSnapshot::idle(current_version.clone(), journal.channel.clone());
        let pending_is_current = match &journal.pending_version {
            Some(pending) => *pending == current_version,
            None => false,
        };
        if pending_is_current {
            if let Some(previous) = journal.boot_started_at_ms {
                if now.saturating_sub(previous) <= BOOT_FAILURE_WINDOW_MS {
                    journal.boot_failures = journal.boot_failures.saturating_add(1);
                } else {
                    journal.boot_failures = 1;
                }
            }
            journal.boot_started_at_ms = Some(now);
            snapshot.target_version = Some(current_version.clone());
            snapshot.phase = owned("verifying_boot");
            if journal.boot_failures >= MAX_BOOT_FAILURES {
                if !contains_string(&journal.quarantined_versions, &current_version) {
                    journal.quarantined_versions.push(current_version.clone());
                    proof {
                        assert(strs(journal.quarantined_versions@) =~= normalized.quarantined_versions.push(
                            current_version@,
                        ));
                    }
                }
                snapshot.phase = owned("quarantined");
                snapshot.quarantined = true;
                snapshot.error_code = Some(owned("boot_verification_failed"));
            }
        } else if journal.pending_version.is_some() {
            journal.last_error_code = Some(owned("install_not_applied"));
            journal.pending_version = None;
            journal.pending_from_version = None;
            journal.pending_release_id = None;
            journal.pending_cohort = None;
            journal.pending_started_at_ms = None;
            journal.boot_started_at_ms = None;
            journal.boot_failures = 0;
        }
        let fallback = fallback_interval_ms(journal.install_id.as_str());
        let release_id = clone_opt_string(&journal.pending_release_id);
        let cohort = journal.pending_cohort;
        let r = DesktopUpdateCoordinator {
            snapshot,
            safety: DesktopUpdateSafety::default(),
            download: None,
            check_in_flight: false,
            install_in_flight: false,
            last_check_at_ms: 0,
            next_check_at_ms: now.saturating_add(fallback),
            check_failures: 0,
            last_heartbeat_at_ms: now,
            runtime_visible: false,
            hang_dump_captured: false,
            journal,
            release_id,
            cohort,
        };
        proof {
            assert(r@.snapshot =~= boot_snapshot(normalized, current_version@, now));
            assert(r@.journal =~= boot_journal(normalized, current_version@, now));
            assert(r@.safety_blockers =~= Seq::<Seq<char>>::empty());
        }
        r
    }

    /// `recover`, checking the stored install id with `uuid` and drawing a new random one
    /// when it is not a UUID.
    pub fn load(
        journal: UpdateJournal,
        current_version: String,
        now: u64,
        requested_channel: Option<String>,
    ) -> (r: Self)
        ensures
            uuid_text(journal@.install_id) is Some ==> r@ == recovered(
                journal@,
                current_version@,
                now,
                opt_str(requested_channel),
                true,
                Seq::empty(),
            ),
            uuid_text(journal@.install_id) is None ==> uuid_text(r@.journal.install_id) == Some(
                r@.journal.install_id,
            ),
            uuid_text(journal@.install_id) is None ==> exists|fresh: Seq<char>|
                r@ == #[trigger] recovered(
                    journal@,
                    current_version@,
                    now,
                    opt_str(requested_channel),
                    false,
                    fresh,
                ),
    {
        let valid = canonical_uuid(journal.install_id.as_str()).is_some();
        let fresh = if valid {
            String::new()
        } else {
            new_uuid_v4()
        };
        let ghost fresh_view = fresh@;
        let r = Self::recover(journal, current_version, now, requested_channel, valid, fresh);
        proof {
            if !valid {
                assert(r@.journal.install_id == fresh_view);
                assert(r@ == recovered(
                    journal@,
                    current_version@,
                    now,
                    opt_str(requested_channel),
                    false,
                    fresh_view,
                ));
            }
        }
        r
    }

    pub fn journal(&self) -> (r: &UpdateJournal)
        ensures
            r@ == self@.journal,
    {
        &self.journal
    }

    /// The snapshot that the web client is shown; the coordinator it is read from is always
    /// consistent.
    pub fn snapshot(&self) -> (r: DesktopUpdateSnapshot)
        ensures
            r@ == self@.snapshot,
            coordinator_consistent(self@),
    {
        proof {
            use_type_invariant(self);
        }
        self.snapshot.duplicate()
    }

    /// Records the web client's safe-point report and returns the resulting snapshot.
    pub fn set_safety(&mut self, safety: DesktopUpdateSafety) -> (r: DesktopUpdateSnapshot)
        ensures
            final(self)@ == with_safety(old(self)@, strs(safety.blockers@), safety.window_hidden),
            r@ == final(self)@.snapshot,
    {
        proof {
            use_type_invariant(&*self);
        }
        let blockers = normalize_blockers(safety.blockers);
        self.safety = DesktopUpdateSafety {
            blockers: clone_strings(&blockers),
            window_hidden: safety.window_hidden,
        };
        let empty = blockers.len() == 0;
        self.snapshot.install_ready = false;
        self.snapshot.blockers = blockers;
        self.snapshot.install_ready = self.download.is_some() && empty && !self.snapshot.quarantined;
        if self.download.is_some() && !self.snapshot.install_ready {
            self.snapshot.phase = owned("waiting_safe_point");
        }
        self.snapshot.duplicate()
    }

    pub fn heartbeat(&mut self, visible: bool, now: u64)
        ensures
            final(self)@ == (CoordinatorView {
                last_heartbeat_at_ms: now,
                runtime_visible: visible,
                ..old(self)@
            }),
    {
        proof {
            use_type_invariant(&*self);
        }
        self.last_heartbeat_at_ms = now;
        self.runtime_visible = visible;
    }

    /// A ready report from the web client. It is refused unless a route is given and the cache
    /// is ready. It confirms the boot of a just-installed version, which ends its update, and
    /// returns the telemetry event of that confirmation when a diagnostics session exists. The
    /// shell then persists the journal and calls `runtime_ready_persisted`.
    pub fn runtime_ready(
        &mut self,
        readiness: &DesktopRuntimeReadiness,
        session_id: Option<String>,
    ) -> (r: Result<Option<DesktopUpdateEvent>, String>)
        ensures
            !runtime_ready_accepted(readiness.route@, readiness.cache_ready) ==> r is Err
                && r->Err_0@ == "runtime_not_ready"@ && final(self)@ == old(self)@,
            runtime_ready_accepted(readiness.route@, readiness.cache_ready) ==> r is Ok
                && final(self)@ == after_runtime_ready(old(self)@),
            r matches Ok(Some(e)) ==> boot_pending_confirmation(old(self)@) && session_id is Some
                && telemetry_release(old(self)@) is Some && uuid_text(e.event_id@) == Some(e.event_id@)
                && telemetry_matches(
                old(self)@,
                e,
                e.event_id@,
                session_id->0@,
                "verifying_boot"@,
                "succeeded"@,
                None,
                0,
            ),
            r matches Ok(None) ==> !(boot_pending_confirmation(old(self)@) && session_id is Some
                && telemetry_release(old(self)@) is Some),
    {
        proof {
            use_type_invariant(&*self);
        }
        let route = trim(readiness.route.as_str());
        if route.is_empty() || !readiness.cache_ready {
            return Err(owned("runtime_not_ready"));
        }
        let ghost pre = self@;
        let current = self.snapshot.current_version.clone();
        let confirming = match &self.journal.pending_version {
            Some(pending) => *pending == current,
            None => false,
        };
        let event = if confirming {
            match session_id {
                Some(session) => self.telemetry_event(session, "verifying_boot", "succeeded", None, 0),
                None => None,
            }
        } else {
            None
        };
        self.journal.cached_runtime_ready = true;
        if confirming {
            self.journal.pending_version = None;
            self.journal.pending_from_version = None;
            self.journal.pending_release_id = None;
            self.journal.pending_cohort = None;
            self.journal.pending_started_at_ms = None;
            self.journal.boot_started_at_ms = None;
            self.journal.boot_failures = 0;
            let ghost listed = strs(self.journal.quarantined_versions@);
            let kept = without_version(&self.journal.quarantined_versions, &current);
            proof {
                let cur = pre.snapshot.current_version;
                assert((|q: Seq<char>| q != current@) =~= (|q: Seq<char>| q != cur));
                assert(strs(kept@) == listed.filter(|q: Seq<char>| q != cur));
            }
            self.journal.quarantined_versions = kept;
            self.journal.last_error_code = None;
            let mut snapshot = DesktopUpdateSnapshot::idle(current, self.journal.channel.clone());
            snapshot.phase = owned("complete");
            self.snapshot = snapshot;
        }
        proof {
            let post = after_runtime_ready(pre);
            assert(confirming == boot_pending_confirmation(pre));
            assert(self@.snapshot =~= post.snapshot);
            assert(self@.journal.quarantined_versions =~= post.journal.quarantined_versions);
            assert(self@.journal =~= post.journal);
            assert(self@ =~= post);
        }
        Ok(event)
    }

    /// Ends a ready report once the journal is persisted: the runtime is visible and alive.
    pub fn runtime_ready_persisted(&mut self, now: u64) -> (r: DesktopUpdateSnapshot)
        ensures
            final(self)@ == (CoordinatorView {
                last_heartbeat_at_ms: now,
                runtime_visible: true,
                ..old(self)@
            }),
            r@ == final(self)@.snapshot,
    {
        proof {
            use_type_invariant(&*self);
        }
        self.last_heartbeat_at_ms = now;
        self.runtime_visible = true;
        self.snapshot.duplicate()
    }

    /// A background check is due once the scheduled time has come and none is running.
    pub fn check_due(&self, now: u64) -> (r: bool)
        ensures
            r == (!self@.check_in_flight && now >= self@.next_check_at_ms),
    {
        !self.check_in_flight && now >= self.next_check_at_ms
    }

    pub fn cached_runtime_ready(&self) -> (r: bool)
        ensures
            r == self@.journal.cached_runtime_ready,
    {
        self.journal.cached_runtime_ready
    }

    /// A downloaded, unblocked update installs by itself while the window is hidden or the
    /// user has been idle for ten minutes.
    pub fn should_auto_install(&self, idle_seconds: u64, window_hidden: bool) -> (r: bool)
        ensures
            r == auto_install_due(self@, idle_seconds, window_hidden),
            coordinator_consistent(self@),
            self@.snapshot.blockers.len() > 0 ==> !r,
    {
        proof {
            use_type_invariant(self);
        }
        self.download.is_some() && self.snapshot.install_ready && !self.install_in_flight
            && (self.safety.window_hidden || window_hidden || idle_seconds
            >= AUTO_INSTALL_IDLE_SECONDS)
    }

    /// The visible runtime has stopped sending heartbeats for 30 seconds, outside an install,
    /// and no hang dump has been taken yet.
    pub fn heartbeat_overdue(&self, now: u64) -> (r: bool)
        ensures
            r == (self@.runtime_visible && !self@.install_in_flight && !self@.hang_dump_captured
                && sat_sub(now, self@.last_heartbeat_at_ms) >= HEARTBEAT_TIMEOUT_MS),
    {
        self.runtime_visible && !self.install_in_flight && !self.hang_dump_captured
            && now.saturating_sub(self.last_heartbeat_at_ms) >= HEARTBEAT_TIMEOUT_MS
    }

    pub fn mark_hang_dump_captured(&mut self)
        ensures
            final(self)@ == (CoordinatorView { hang_dump_captured: true, ..old(self)@ }),
    {
        proof {
            use_type_invariant(&*self);
        }
        self.hang_dump_captured = true;
    }

    /// A request for a check: skipped while a check or install runs, while a download waits,
    /// within a minute of the last check for a forced background request, and, when not
    /// forced, before the scheduled time unless the last check is older than six hours.
    pub fn begin_check(&mut self, now: u64, force: bool, user_initiated: bool) -> (r: CheckStart)
        ensures
            final(self)@ == if check_skipped(old(self)@, now, force, user_initiated) {
                old(self)@
            } else {
                after_check_start(old(self)@, now)
            },
            check_outcome(r, old(self)@, final(self)@, check_skipped(old(self)@, now, force, user_initiated)),
    {
        proof {
            use_type_invariant(&*self);
        }
        if self.check_in_flight || self.install_in_flight {
            return CheckStart::Skip(self.snapshot.duplicate());
        }
        if self.download.is_some() {
            return CheckStart::Skip(self.snapshot.duplicate());
        }
        if force && check_rate_limited(self.last_check_at_ms, now, user_initiated) {
            return CheckStart::Skip(self.snapshot.duplicate());
        }
        if !force && now < self.next_check_at_ms && (self.last_check_at_ms == 0
            || now.saturating_sub(self.last_check_at_ms) < CHECK_FOCUS_TTL_MS) {
            return CheckStart::Skip(self.snapshot.duplicate());
        }
        self.check_in_flight = true;
        self.last_check_at_ms = now;
        self.snapshot.phase = owned("checking");
        self.snapshot.error_code = None;
        CheckStart::Start {
            install_id: self.journal.install_id.clone(),
            channel: self.journal.channel.clone(),
            snapshot: self.snapshot.duplicate(),
        }
    }

    /// A check or download failed with `code`: retry after a delay that grows with the
    /// consecutive failures. The shell persists the journal and emits the snapshot.
    pub fn check_failed(&mut self, code: &str, now: u64) -> (r: DesktopUpdateSnapshot)
        ensures
            final(self)@ == after_check_failure(old(self)@, code@, now),
            r@ == final(self)@.snapshot,
    {
        proof {
            use_type_invariant(&*self);
        }
        let ghost pre = self@;
        let failures = if self.check_failures == usize::MAX {
            usize::MAX
        } else {
            self.check_failures + 1
        };
        let index = if failures - 1 < 3 {
            failures - 1
        } else {
            3
        };
        let delay = check_retry_ms(index);
        self.check_in_flight = false;
        self.check_failures = failures;
        self.next_check_at_ms = now.saturating_add(delay);
        self.snapshot.phase = owned("failed");
        self.snapshot.error_code = Some(owned(code));
        self.journal.last_error_code = Some(owned(code));
        proof {
            assert(self@ =~= after_check_failure(pre, code@, now));
        }
        self.snapshot.duplicate()
    }

    /// The server has no update: back to idle until the next background check.
    pub fn check_found_nothing(&mut self, now: u64) -> (r: DesktopUpdateSnapshot)
        ensures
            final(self)@ == after_no_update(old(self)@, now),
            r@ == final(self)@.snapshot,
    {
        proof {
            use_type_invariant(&*self);
        }
        self.check_in_flight = false;
        self.check_failures = 0;
        self.next_check_at_ms = now.saturating_add(fallback_interval_ms(self.journal.install_id.as_str()));
        self.snapshot = DesktopUpdateSnapshot::idle(
            self.snapshot.current_version.clone(),
            self.journal.channel.clone(),
        );
        self.snapshot.duplicate()
    }

    /// The server offers `version` under `policy`. A version that failed to boot before is
    /// not downloaded.
    pub fn check_found_update(&mut self, version: String, policy: UpdatePolicy) -> (r: FoundUpdate)
        ensures
            final(self)@ == after_update_found(old(self)@, version@, policy),
            old(self)@.journal.quarantined_versions.contains(version@) <==> r is Quarantined,
            match r {
                FoundUpdate::Quarantined(s) => s@ == final(self)@.snapshot,
                FoundUpdate::Download(s) => s@ == final(self)@.snapshot,
            },
    {
        proof {
            use_type_invariant(&*self);
        }
        self.snapshot.phase = owned("available");
        self.snapshot.target_version = Some(version.clone());
        self.snapshot.mandatory_after = policy.mandatory_after;
        self.snapshot.mandatory = policy.mandatory;
        self.snapshot.channel = match policy.channel {
            Some(channel) => channel,
            None => self.journal.channel.clone(),
        };
        self.release_id = policy.release_id;
        self.cohort = policy.cohort;
        if contains_string(&self.journal.quarantined_versions, &version) {
            self.check_in_flight = false;
            self.snapshot.phase = owned("quarantined");
            self.snapshot.quarantined = true;
            self.snapshot.error_code = Some(owned("update_quarantined"));
            return FoundUpdate::Quarantined(self.snapshot.duplicate());
        }
        self.snapshot.phase = owned("downloading");
        self.snapshot.downloaded_bytes = 0;
        self.snapshot.total_bytes = None;
        self.snapshot.progress_percent = None;
        FoundUpdate::Download(self.snapshot.duplicate())
    }

    /// Download progress; returns the snapshot to emit when the percentage or the total
    /// changed.
    pub fn record_progress(&mut self, downloaded: u64, total: Option<u64>) -> (r: Option<DesktopUpdateSnapshot>)
        ensures
            final(self)@ == after_progress(old(self)@, downloaded, total),
            r is Some <==> (progress_percent(downloaded, total) != old(self)@.snapshot.progress_percent
                || total != old(self)@.snapshot.total_bytes),
            r matches Some(s) ==> s@ == final(self)@.snapshot,
    {
        proof {
            use_type_invariant(&*self);
        }
        let percent = match total {
            Some(t) => if t > 0 {
                let scaled = if downloaded > u64::MAX / 100 {
                    u64::MAX
                } else {
                    downloaded * 100
                };
                let p = scaled / t;
                Some(if p < 100 {
                    p as u8
                } else {
                    100u8
                })
            } else {
                None
            },
            None => None,
        };
        let changed = percent != self.snapshot.progress_percent || total != self.snapshot.total_bytes;
        self.snapshot.downloaded_bytes = downloaded;
        self.snapshot.total_bytes = total;
        self.snapshot.progress_percent = percent;
        if changed {
            Some(self.snapshot.duplicate())
        } else {
            None
        }
    }

    /// The download of `version` finished. Returns the snapshot announcing that it is ready,
    /// then the one that waits for a safe point; the shell emits both.
    pub fn download_complete(&mut self, version: String, bytes: Vec<u8>, now: u64) -> (r: (DesktopUpdateSnapshot, DesktopUpdateSnapshot))
        requires
            old(self)@.check_in_flight,
        ensures
            final(self)@ == after_download(old(self)@, version@, bytes@, now),
            r.1@ == final(self)@.snapshot,
            r.0@ == (SnapshotView { phase: "ready"@, ..final(self)@.snapshot }),
    {
        proof {
            use_type_invariant(&*self);
        }
        self.check_in_flight = false;
        self.check_failures = 0;
        self.next_check_at_ms = now.saturating_add(fallback_interval_ms(self.journal.install_id.as_str()));
        self.download = Some((version, bytes));
        self.snapshot.install_ready = self.snapshot.blockers.len() == 0;
        self.snapshot.error_code = None;
        self.snapshot.phase = owned("ready");
        let ready = self.snapshot.duplicate();
        self.snapshot.phase = owned("waiting_safe_point");
        (ready, self.snapshot.duplicate())
    }

    /// A request to install the downloaded update. Blockers hold it back (an error when the
    /// user asked); a quarantined or missing update is refused; otherwise the download is
    /// handed out and the journal records the install.
    pub fn begin_install(&mut self, user_initiated: bool, now: u64) -> (r: InstallStart)
        ensures
            coordinator_consistent(old(self)@),
            final(self)@ == after_install_request(old(self)@, now),
            install_outcome(r, old(self)@, final(self)@, user_initiated),
    {
        proof {
            use_type_invariant(&*self);
        }
        if self.install_in_flight {
            return InstallStart::Finished { result: Ok(self.snapshot.duplicate()), emit: None };
        }
        if self.snapshot.blockers.len() > 0 {
            self.snapshot.phase = owned("waiting_safe_point");
            self.snapshot.error_code = Some(owned("update_blocked"));
            let emit = Some(self.snapshot.duplicate());
            let result = if user_initiated {
                Err(owned("update_blocked"))
            } else {
                Ok(self.snapshot.duplicate())
            };
            return InstallStart::Finished { result, emit };
        }
        if self.snapshot.quarantined {
            return InstallStart::Finished { result: Err(owned("update_quarantined")), emit: None };
        }
        if self.download.is_none() {
            return InstallStart::Finished { result: Err(owned("update_not_ready")), emit: None };
        }
        self.snapshot.install_ready = false;
        let mut held: Option<(String, Vec<u8>)> = None;
        std::mem::swap(&mut held, &mut self.download);
        let (pending, bytes) = match held {
            Some(d) => d,
            None => (String::new(), Vec::new()),
        };
        let target_version = match &self.snapshot.target_version {
            Some(t) => t.clone(),
            None => pending,
        };
        self.install_in_flight = true;
        self.snapshot.phase = owned("installing");
        self.snapshot.error_code = None;
        self.journal.pending_version = Some(target_version.clone());
        self.journal.pending_from_version = Some(self.snapshot.current_version.clone());
        self.journal.pending_release_id = clone_opt_string(&self.release_id);
        self.journal.pending_cohort = self.cohort;
        self.journal.pending_started_at_ms = Some(now);
        self.journal.boot_started_at_ms = None;
        self.journal.boot_failures = 0;
        self.journal.last_error_code = None;
        InstallStart::Install { bytes, target_version, snapshot: self.snapshot.duplicate() }
    }

    /// The installer refused the update: the download is kept for another attempt and the
    /// journal forgets the pending install. The shell persists the journal and emits the
    /// snapshot.
    pub fn install_failed(&mut self, version: String, bytes: Vec<u8>) -> (r: DesktopUpdateSnapshot)
        requires
            old(self)@.install_in_flight,
        ensures
            final(self)@ == after_install_failure(old(self)@, version@, bytes@),
            r@ == final(self)@.snapshot,
    {
        proof {
            use_type_invariant(&*self);
        }
        self.install_in_flight = false;
        self.download = Some((version, bytes));
        self.snapshot.phase = owned("failed");
        self.snapshot.error_code = Some(owned("install_failed"));
        self.snapshot.install_ready = self.snapshot.blockers.len() == 0;
        self.journal.pending_version = None;
        self.journal.pending_from_version = None;
        self.journal.pending_release_id = None;
        self.journal.pending_cohort = None;
        self.journal.pending_started_at_ms = None;
        self.journal.last_error_code = Some(owned("install_failed"));
        self.snapshot.duplicate()
    }

    /// The telemetry event for a step, with a given event id; `None` when the update has no
    /// release id.
    pub fn telemetry_event_with_id(
        &self,
        event_id: String,
        session_id: String,
        phase: &str,
        result: &str,
        error_code: Option<&str>,
        duration_ms: u64,
    ) -> (r: Option<DesktopUpdateEvent>)
        ensures
            r is Some <==> telemetry_release(self@) is Some,
            r matches Some(e) ==> telemetry_matches(
                self@,
                e,
                event_id@,
                session_id@,
                phase@,
                result@,
                opt_text(error_code),
                duration_ms,
            ),
    {
        let release = if self.journal.pending_release_id.is_some() {
            clone_opt_string(&self.journal.pending_release_id)
        } else {
            clone_opt_string(&self.release_id)
        };
        let release_id = match release {
            Some(r) => if !r.as_str().is_empty() {
                r
            } else {
                return None;
            },
            None => return None,
        };
        let from_version = match &self.journal.pending_from_version {
            Some(f) => f.clone(),
            None => self.snapshot.current_version.clone(),
        };
        let to_version = match &self.journal.pending_version {
            Some(t) => t.clone(),
            None => match &self.snapshot.target_version {
                Some(t) => t.clone(),
                None => self.snapshot.current_version.clone(),
            },
        };
        let cohort = if self.journal.pending_cohort.is_some() {
            self.journal.pending_cohort
        } else {
            self.cohort
        };
        Some(DesktopUpdateEvent {
            event_id,
            session_id,
            release_id,
            from_version,
            to_version,
            channel: self.snapshot.channel.clone(),
            cohort,
            phase: owned(phase),
            result: owned(result),
            error_code: match error_code {
                Some(code) => Some(owned(code)),
                None => None,
            },
            duration_ms: if duration_ms < TELEMETRY_MAX_DURATION_MS {
                duration_ms
            } else {
                TELEMETRY_MAX_DURATION_MS
            },
        })
    }

    /// The telemetry event for a step, under a fresh random event id.
    pub fn telemetry_event(
        &self,
        session_id: String,
        phase: &str,
        result: &str,
        error_code: Option<&str>,
        duration_ms: u64,
    ) -> (r: Option<DesktopUpdateEvent>)
        ensures
            r is Some <==> telemetry_release(self@) is Some,
            r matches Some(e) ==> uuid_text(e.event_id@) == Some(e.event_id@),
            r matches Some(e) ==> telemetry_matches(
                self@,
                e,
                e.event_id@,
                session_id@,
                phase@,
                result@,
                opt_text(error_code),
                duration_ms,
            ),
    {
        self.telemetry_event_with_id(new_uuid_v4(), session_id, phase, result, error_code, duration_ms)
    }
}

/// The strings of `versions` other than `version`, in order.
fn without_version(versions: &Vec<String>, version: &String) -> (r: Vec<String>)
    ensures
        strs(r@) == strs(versions@).filter(|q: Seq<char>| q != version@),
{
    let ghost f = |q: Seq<char>| q != version@;
    let mut out: Vec<String> = Vec::new();
    let mut i: usize = 0;
    while i < versions.len()
        invariant
            f == (|q: Seq<char>| q != version@),
            i <= versions@.len(),
            strs(out@) == strs(versions@).subrange(0, i as int).filter(f),
        decreases versions@.len() - i,
    {
        let ghost next = strs(versions@).subrange(0, i + 1);
        proof {
            reveal_with_fuel(Seq::filter, 1);
            assert(next.drop_last() =~= strs(versions@).subrange(0, i as int));
            assert(next.last() == versions@[i as int]@);
        }
        if versions[i] != *version {
            out.push(versions[i].clone());
            proof {
                assert(strs(out@) =~= next.filter(f));
            }
        } else {
            proof {
                assert(strs(out@) =~= next.filter(f));
            }
        }
        i = i + 1;
    }
    proof {
        assert(strs(versions@).subrange(0, versions@.len() as int) =~= strs(versions@));
    }
    out
}

} // verus!
