use stem_desktop::update::{
    CheckStart, DesktopRuntimeReadiness, DesktopUpdateCoordinator, DesktopUpdateSafety,
    DesktopUpdateSnapshot, FoundUpdate, InstallStart, UpdateJournal,
};
use stem_desktop::update_rules::{
    check_rate_limited, fallback_interval_ms, normalize_blockers, requested_channel, safe_route,
    safe_token, JsonFields, JsonScalar, UpdatePolicy, AUTO_INSTALL_IDLE_SECONDS,
    CHECK_FALLBACK_INTERVAL_MS, CHECK_MIN_INTERVAL_MS,
};

const INSTALL_ID: &str = "019f50e2-dc4e-7821-bc0b-38de88c23813";

fn journal(pending_version: Option<&str>) -> UpdateJournal {
    UpdateJournal {
        install_id: INSTALL_ID.to_string(),
        channel: "stable".to_string(),
        pending_version: pending_version.map(str::to_string),
        ..UpdateJournal::default()
    }
}

fn policy(release_id: &str) -> UpdatePolicy {
    UpdatePolicy {
        release_id: Some(release_id.to_string()),
        channel: None,
        cohort: Some(42),
        mandatory_after: None,
        mandatory: false,
    }
}

fn coordinator_with_ready_update(now: u64) -> DesktopUpdateCoordinator {
    let mut coordinator =
        DesktopUpdateCoordinator::recover(journal(None), "0.1.31".to_string(), now, None, true, String::new());
    match coordinator.begin_check(now, true, true) {
        CheckStart::Start { .. } => {}
        CheckStart::Skip(_) => panic!("check should start"),
    }
    match coordinator.check_found_update("0.1.32".to_string(), policy("stable-0.1.32")) {
        FoundUpdate::Download(_) => {}
        FoundUpdate::Quarantined(_) => panic!("update should download"),
    }
    coordinator.download_complete("0.1.32".to_string(), vec![1, 2, 3], now);
    coordinator
}

#[test]
fn safety_blockers_are_allowlisted_sorted_and_unique() {
    assert_eq!(
        normalize_blockers(vec![
            "call".to_string(),
            " secret ".to_string(),
            "draft".to_string(),
            "CALL".to_string(),
        ]),
        vec!["call".to_string(), "draft".to_string()]
    );
}

#[test]
fn fallback_interval_is_stable_and_bounded() {
    let interval = fallback_interval_ms("019f50e2-dc4e-7821-bc0b-38de88c23813");
    assert_eq!(
        interval,
        fallback_interval_ms("019f50e2-dc4e-7821-bc0b-38de88c23813")
    );
    assert!(interval >= CHECK_FALLBACK_INTERVAL_MS * 4 / 5);
    assert!(interval <= CHECK_FALLBACK_INTERVAL_MS * 6 / 5);
    assert!(interval <= 18 * 60 * 1_000);
}

#[test]
fn manual_check_bypasses_only_the_background_rate_limit() {
    let last_check = 10_000;
    let now = last_check + 1_000;
    assert!(check_rate_limited(last_check, now, false));
    assert!(!check_rate_limited(last_check, now, true));
    assert!(!check_rate_limited(
        last_check,
        last_check + CHECK_MIN_INTERVAL_MS,
        false
    ));
}

#[test]
fn update_policy_reads_stem_extension() {
    let stem = JsonFields {
        entries: vec![
            ("release_id".to_string(), JsonScalar::Text("canary-0.1.32".to_string())),
            ("channel".to_string(), JsonScalar::Text("canary".to_string())),
            ("cohort".to_string(), JsonScalar::Unsigned(42)),
            ("mandatory".to_string(), JsonScalar::Boolean(true)),
            (
                "mandatory_deadline".to_string(),
                JsonScalar::Text("2026-07-12T00:00:00Z".to_string()),
            ),
        ],
    };
    let policy = UpdatePolicy::from_json(&Some(stem));
    assert_eq!(policy.channel.as_deref(), Some("canary"));
    assert_eq!(policy.release_id.as_deref(), Some("canary-0.1.32"));
    assert_eq!(policy.cohort, Some(42));
    assert!(policy.mandatory);
    assert_eq!(
        policy.mandatory_after.as_deref(),
        Some("2026-07-12T00:00:00Z")
    );
}

#[test]
fn blockers_always_override_manual_and_idle_safe_points() {
    let coordinator_now = 1_000_000;
    let mut coordinator = coordinator_with_ready_update(coordinator_now);
    assert!(coordinator.should_auto_install(AUTO_INSTALL_IDLE_SECONDS, false));
    let snapshot = coordinator.set_safety(DesktopUpdateSafety {
        blockers: vec!["call".to_string()],
        window_hidden: true,
    });
    assert_eq!(snapshot.phase, "waiting_safe_point");
    assert!(!snapshot.install_ready);
    assert!(!coordinator.should_auto_install(u64::MAX, true));
}

#[test]
fn policy_ignores_members_of_the_wrong_type_and_missing_extension() {
    let stem = JsonFields {
        entries: vec![
            ("release_id".to_string(), JsonScalar::Unsigned(7)),
            ("cohort".to_string(), JsonScalar::Other),
            ("mandatory".to_string(), JsonScalar::Text("true".to_string())),
        ],
    };
    let policy = UpdatePolicy::from_json(&Some(stem));
    assert_eq!(policy.release_id, None);
    assert_eq!(policy.cohort, None);
    assert!(!policy.mandatory);
    let none = UpdatePolicy::from_json(&None);
    assert_eq!(none.channel, None);
    assert!(!none.mandatory);
}

#[test]
fn blockers_normalize_to_allowlist_order() {
    assert_eq!(
        normalize_blockers(vec![
            "\tTRANSFER\n".to_string(),
            "Attachment_Editor".to_string(),
            "outbox".to_string(),
            "recording ".to_string(),
            "unknown".to_string(),
            "transfer".to_string(),
        ]),
        vec![
            "attachment_editor".to_string(),
            "outbox".to_string(),
            "recording".to_string(),
            "transfer".to_string(),
        ]
    );
    assert!(normalize_blockers(Vec::new()).is_empty());
}

#[test]
fn idle_snapshot_has_no_update() {
    let snapshot = DesktopUpdateSnapshot::idle("0.1.37".to_string(), "canary".to_string());
    assert_eq!(snapshot.phase, "idle");
    assert_eq!(snapshot.current_version, "0.1.37");
    assert_eq!(snapshot.channel, "canary");
    assert_eq!(snapshot.target_version, None);
    assert!(!snapshot.install_ready);
    assert!(snapshot.blockers.is_empty());
}

#[test]
fn start_up_normalizes_channel_and_schedules_a_check() {
    let mut stored = journal(None);
    stored.channel = "beta".to_string();
    let coordinator =
        DesktopUpdateCoordinator::recover(stored, "0.1.37".to_string(), 5_000, None, true, String::new());
    assert_eq!(coordinator.journal().channel, "stable");
    assert_eq!(coordinator.snapshot().phase, "idle");
    assert!(!coordinator.check_due(5_000));
    assert!(coordinator.check_due(5_000 + fallback_interval_ms(INSTALL_ID)));

    let canary = DesktopUpdateCoordinator::recover(
        journal(None),
        "0.1.37".to_string(),
        5_000,
        Some("canary".to_string()),
        false,
        "fresh-id".to_string(),
    );
    assert_eq!(canary.journal().channel, "canary");
    assert_eq!(canary.journal().install_id, "fresh-id");
}

#[test]
fn load_replaces_an_install_id_that_is_not_a_uuid() {
    let mut stored = journal(None);
    stored.install_id = "not-a-uuid".to_string();
    let coordinator = DesktopUpdateCoordinator::load(stored, "0.1.37".to_string(), 0, None);
    assert_ne!(coordinator.journal().install_id, "not-a-uuid");
    assert_eq!(coordinator.journal().install_id.len(), 36);
    let drawn = uuid::Uuid::parse_str(&coordinator.journal().install_id).expect("a UUID");
    assert_eq!(drawn.to_string(), coordinator.journal().install_id);
    let kept = DesktopUpdateCoordinator::load(journal(None), "0.1.37".to_string(), 0, None);
    assert_eq!(kept.journal().install_id, INSTALL_ID);
}

#[test]
fn second_failed_boot_quarantines_the_version() {
    let first = DesktopUpdateCoordinator::recover(
        journal(Some("0.1.32")),
        "0.1.32".to_string(),
        1_000,
        None,
        true,
        String::new(),
    );
    assert_eq!(first.snapshot().phase, "verifying_boot");
    assert_eq!(first.journal().boot_failures, 0);

    let mut stored = first.journal().duplicate();
    stored.boot_failures = 1;
    let second = DesktopUpdateCoordinator::recover(
        stored,
        "0.1.32".to_string(),
        2_000,
        None,
        true,
        String::new(),
    );
    let snapshot = second.snapshot();
    assert_eq!(snapshot.phase, "quarantined");
    assert!(snapshot.quarantined);
    assert_eq!(snapshot.error_code.as_deref(), Some("boot_verification_failed"));
    assert_eq!(second.journal().quarantined_versions, vec!["0.1.32".to_string()]);
}

#[test]
fn install_not_applied_is_forgotten() {
    let coordinator = DesktopUpdateCoordinator::recover(
        journal(Some("0.1.40")),
        "0.1.37".to_string(),
        0,
        None,
        true,
        String::new(),
    );
    assert_eq!(coordinator.journal().pending_version, None);
    assert_eq!(
        coordinator.journal().last_error_code.as_deref(),
        Some("install_not_applied")
    );
}

#[test]
fn ready_report_confirms_boot_and_lifts_quarantine() {
    let mut stored = journal(Some("0.1.32"));
    stored.quarantined_versions = vec!["0.1.32".to_string(), "0.1.30".to_string()];
    stored.pending_release_id = Some("stable-0.1.32".to_string());
    let mut coordinator = DesktopUpdateCoordinator::recover(
        stored,
        "0.1.32".to_string(),
        0,
        None,
        true,
        String::new(),
    );
    let refused = coordinator.runtime_ready(
        &DesktopRuntimeReadiness {
            web_build_id: "web".to_string(),
            route: "   ".to_string(),
            cache_ready: true,
        },
        None,
    );
    assert_eq!(refused.err().as_deref(), Some("runtime_not_ready"));

    let event = coordinator
        .runtime_ready(
            &DesktopRuntimeReadiness {
                web_build_id: "web".to_string(),
                route: "/messages".to_string(),
                cache_ready: true,
            },
            Some("session".to_string()),
        )
        .expect("ready")
        .expect("telemetry event");
    assert_eq!(event.phase, "verifying_boot");
    assert_eq!(event.result, "succeeded");
    assert_eq!(event.release_id, "stable-0.1.32");
    assert_eq!(event.to_version, "0.1.32");
    assert_eq!(event.session_id, "session");

    let snapshot = coordinator.runtime_ready_persisted(10);
    assert_eq!(snapshot.phase, "complete");
    assert_eq!(coordinator.journal().pending_version, None);
    assert_eq!(coordinator.journal().quarantined_versions, vec!["0.1.30".to_string()]);
    assert!(coordinator.cached_runtime_ready());
}

#[test]
fn quarantined_update_is_not_downloaded() {
    let mut stored = journal(None);
    stored.quarantined_versions = vec!["0.1.32".to_string()];
    let mut coordinator =
        DesktopUpdateCoordinator::recover(stored, "0.1.31".to_string(), 0, None, true, String::new());
    assert!(matches!(coordinator.begin_check(0, true, true), CheckStart::Start { .. }));
    match coordinator.check_found_update("0.1.32".to_string(), policy("stable-0.1.32")) {
        FoundUpdate::Quarantined(snapshot) => {
            assert_eq!(snapshot.phase, "quarantined");
            assert_eq!(snapshot.error_code.as_deref(), Some("update_quarantined"));
        }
        FoundUpdate::Download(_) => panic!("quarantined version downloaded"),
    }
}

#[test]
fn checks_are_skipped_while_busy_or_too_soon() {
    let mut coordinator =
        DesktopUpdateCoordinator::recover(journal(None), "0.1.31".to_string(), 0, None, true, String::new());
    assert!(matches!(coordinator.begin_check(0, false, false), CheckStart::Skip(_)));
    match coordinator.begin_check(100_000, true, false) {
        CheckStart::Start { install_id, channel, snapshot } => {
            assert_eq!(install_id, INSTALL_ID);
            assert_eq!(channel, "stable");
            assert_eq!(snapshot.phase, "checking");
        }
        CheckStart::Skip(_) => panic!("forced check should start"),
    }
    assert!(matches!(coordinator.begin_check(100_001, true, true), CheckStart::Skip(_)));
    let snapshot = coordinator.check_found_nothing(100_002);
    assert_eq!(snapshot.phase, "idle");
    assert!(matches!(coordinator.begin_check(100_003, true, false), CheckStart::Skip(_)));
    assert!(matches!(coordinator.begin_check(100_003, true, true), CheckStart::Start { .. }));
}

#[test]
fn failed_checks_back_off() {
    let mut coordinator =
        DesktopUpdateCoordinator::recover(journal(None), "0.1.31".to_string(), 0, None, true, String::new());
    let delays = [60_000u64, 300_000, 1_800_000, 21_600_000, 21_600_000];
    for delay in delays {
        let now = 1_000_000;
        let snapshot = coordinator.check_failed("check_failed", now);
        assert_eq!(snapshot.phase, "failed");
        assert_eq!(snapshot.error_code.as_deref(), Some("check_failed"));
        assert!(!coordinator.check_due(now + delay - 1));
        assert!(coordinator.check_due(now + delay));
    }
    assert_eq!(coordinator.journal().last_error_code.as_deref(), Some("check_failed"));
}

#[test]
fn progress_reports_percent_changes() {
    let mut coordinator = coordinator_with_ready_update(0);
    let first = coordinator.record_progress(50, Some(200)).expect("changed");
    assert_eq!(first.progress_percent, Some(25));
    assert!(coordinator.record_progress(51, Some(200)).is_none());
    let full = coordinator.record_progress(500, Some(200)).expect("changed");
    assert_eq!(full.progress_percent, Some(100));
    let unknown = coordinator.record_progress(10, Some(0)).expect("changed");
    assert_eq!(unknown.progress_percent, None);
}

#[test]
fn install_hands_out_the_download_and_a_failure_restores_it() {
    let mut coordinator = coordinator_with_ready_update(0);
    match coordinator.begin_install(true, 7) {
        InstallStart::Install { bytes, target_version, snapshot } => {
            assert_eq!(bytes, vec![1, 2, 3]);
            assert_eq!(target_version, "0.1.32");
            assert_eq!(snapshot.phase, "installing");
            assert_eq!(coordinator.journal().pending_version.as_deref(), Some("0.1.32"));
            assert_eq!(coordinator.journal().pending_from_version.as_deref(), Some("0.1.31"));
            assert_eq!(coordinator.journal().pending_cohort, Some(42));
            assert_eq!(coordinator.journal().pending_started_at_ms, Some(7));
            let event = coordinator
                .telemetry_event("session".to_string(), "installing", "started", None, 700_000_000)
                .expect("event");
            assert_eq!(event.release_id, "stable-0.1.32");
            assert_eq!(event.from_version, "0.1.31");
            assert_eq!(event.duration_ms, 604_800_000);
            let failed = coordinator.install_failed(target_version, bytes);
            assert_eq!(failed.phase, "failed");
            assert_eq!(failed.error_code.as_deref(), Some("install_failed"));
            assert!(failed.install_ready);
            assert_eq!(coordinator.journal().pending_version, None);
        }
        InstallStart::Finished { .. } => panic!("install should start"),
    }
    assert!(matches!(coordinator.begin_install(false, 8), InstallStart::Install { .. }));
    match coordinator.begin_install(true, 9) {
        InstallStart::Finished { result, emit } => {
            assert!(result.is_ok());
            assert!(emit.is_none());
        }
        InstallStart::Install { .. } => panic!("install already running"),
    }
}

#[test]
fn blocked_install_is_an_error_only_when_asked_by_the_user() {
    let mut coordinator = coordinator_with_ready_update(0);
    coordinator.set_safety(DesktopUpdateSafety { blockers: vec!["draft".to_string()], window_hidden: false });
    match coordinator.begin_install(true, 1) {
        InstallStart::Finished { result, emit } => {
            assert_eq!(result.err().as_deref(), Some("update_blocked"));
            assert_eq!(emit.expect("emit").error_code.as_deref(), Some("update_blocked"));
        }
        InstallStart::Install { .. } => panic!("blocked install started"),
    }
    match coordinator.begin_install(false, 1) {
        InstallStart::Finished { result, .. } => {
            assert_eq!(result.expect("snapshot").phase, "waiting_safe_point");
        }
        InstallStart::Install { .. } => panic!("blocked install started"),
    }
}

#[test]
fn install_without_download_is_not_ready() {
    let mut coordinator =
        DesktopUpdateCoordinator::recover(journal(None), "0.1.31".to_string(), 0, None, true, String::new());
    match coordinator.begin_install(true, 0) {
        InstallStart::Finished { result, .. } => {
            assert_eq!(result.err().as_deref(), Some("update_not_ready"))
        }
        InstallStart::Install { .. } => panic!("nothing to install"),
    }
}

#[test]
fn heartbeat_watchdog() {
    let mut coordinator =
        DesktopUpdateCoordinator::recover(journal(None), "0.1.31".to_string(), 0, None, true, String::new());
    assert!(!coordinator.heartbeat_overdue(100_000));
    coordinator.heartbeat(true, 1_000);
    assert!(!coordinator.heartbeat_overdue(30_999));
    assert!(coordinator.heartbeat_overdue(31_000));
    coordinator.mark_hang_dump_captured();
    assert!(!coordinator.heartbeat_overdue(31_000));
}

#[test]
fn telemetry_needs_a_release_id() {
    let coordinator =
        DesktopUpdateCoordinator::recover(journal(None), "0.1.31".to_string(), 0, None, true, String::new());
    assert!(coordinator
        .telemetry_event_with_id("id".to_string(), "s".to_string(), "checking", "started", Some("x"), 1)
        .is_none());
}

#[test]
fn update_channel_argument() {
    let args = vec![
        "stem.exe".to_string(),
        "--update-channel=beta".to_string(),
        "--update-channel= canary ".to_string(),
        "--update-channel=stable".to_string(),
    ];
    assert_eq!(requested_channel(&args).as_deref(), Some("canary"));
    assert_eq!(requested_channel(&vec!["stem.exe".to_string()]), None);
}

#[test]
fn log_tokens_are_filtered() {
    assert_eq!(safe_token("0.1.32 <script>"), "0.1.32script");
    assert_eq!(safe_token(&"a".repeat(100)).len(), 80);
    assert_eq!(safe_route("/chat/42?token=secret"), "/chat/42");
    assert_eq!(safe_route("/a b.c"), "/abc");
}

#[test]
fn telemetry_events_carry_a_fresh_uuid() {
    let mut pending = journal(Some("0.1.32"));
    pending.pending_release_id = Some("stable-0.1.32".to_string());
    let coordinator = DesktopUpdateCoordinator::recover(pending, "0.1.32".to_string(), 0, None, true, String::new());
    let event = coordinator
        .telemetry_event("s".to_string(), "installing", "started", None, 0)
        .expect("an event with a release id");
    let id = uuid::Uuid::parse_str(&event.event_id).expect("a UUID");
    assert_eq!(id.to_string(), event.event_id);
    assert_eq!(event.release_id, "stable-0.1.32");
}
