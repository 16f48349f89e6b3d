use stem_desktop::diagnostics::{
    clamp_millis, log_rotation_needed, log_target_enabled, rotated_log_name, sanitize,
    DesktopDiagnostics,
};
use stem_desktop::notifications::{
    notification_content, DesktopNotificationRequest, NotificationDedupe,
    DESKTOP_NOTIFICATION_RECENT_LIMIT,
};

fn request(title: &str, body: Option<&str>, sound: Option<&str>) -> DesktopNotificationRequest {
    DesktopNotificationRequest {
        title: title.to_string(),
        body: body.map(str::to_string),
        dedupe_key: None,
        dedupe_ms: None,
        sound: sound.map(str::to_string),
    }
}

#[test]
fn blank_titles_show_nothing() {
    assert!(notification_content(&request("   ", Some("body"), None)).is_none());
}

#[test]
fn notification_text_is_trimmed_and_cut() {
    let long_title = "t".repeat(100);
    let long_body = format!("  {}  ", "б".repeat(300));
    let content = notification_content(&request(&long_title, Some(&long_body), Some("  "))).unwrap();
    assert_eq!(content.title, "t".repeat(80));
    assert_eq!(content.body, Some("б".repeat(240)));
    assert_eq!(content.sound, None);

    let short = notification_content(&request(" Hi ", Some(" there "), Some(" ding.wav "))).unwrap();
    assert_eq!(short.title, "Hi");
    assert_eq!(short.body, Some("there".to_string()));
    assert_eq!(short.sound, Some("ding.wav".to_string()));
}

#[test]
fn repeats_are_suppressed_within_the_window() {
    let mut dedupe = NotificationDedupe::new();
    assert!(!dedupe.is_duplicate(Some("chat:1"), None, 1_000));
    assert!(dedupe.is_duplicate(Some(" chat:1 "), None, 16_000));
    assert!(!dedupe.is_duplicate(Some("chat:1"), None, 16_001));
    assert!(!dedupe.is_duplicate(Some("chat:2"), Some(10), 20_000));
    assert!(dedupe.is_duplicate(Some("chat:2"), Some(10), 21_000));
    assert!(!dedupe.is_duplicate(Some("chat:2"), Some(10), 22_001));
}

#[test]
fn keyless_notifications_are_never_suppressed() {
    let mut dedupe = NotificationDedupe::new();
    assert!(!dedupe.is_duplicate(None, None, 5));
    assert!(!dedupe.is_duplicate(None, None, 5));
    assert!(!dedupe.is_duplicate(Some("   "), None, 5));
    assert!(!dedupe.is_duplicate(Some("   "), None, 5));
}

#[test]
fn only_the_newest_keys_are_remembered() {
    let mut dedupe = NotificationDedupe::new();
    for index in 0..=DESKTOP_NOTIFICATION_RECENT_LIMIT {
        assert!(!dedupe.is_duplicate(Some(&format!("k{index}")), None, 100));
    }
    assert!(!dedupe.is_duplicate(Some("k0"), None, 100));
    assert!(dedupe.is_duplicate(Some("k128"), None, 100));
}

#[test]
fn hang_dump_is_taken_once_per_session() {
    let mut diagnostics = DesktopDiagnostics::new("logs".to_string(), "s1".to_string());
    let mut written = Vec::new();
    assert_eq!(
        diagnostics.capture_hang_dump(|name| {
            written.push(name);
            Err("disk full".to_string())
        }),
        Err("disk full".to_string())
    );
    assert_eq!(
        diagnostics.capture_hang_dump(|name| {
            written.push(name);
            Ok(())
        }),
        Ok(())
    );
    assert_eq!(
        diagnostics.capture_hang_dump(|name| {
            written.push(name);
            Ok(())
        }),
        Ok(())
    );
    assert_eq!(written, vec!["hang-s1.dmp".to_string(), "hang-s1.dmp".to_string()]);
    assert_eq!(diagnostics.directory(), "logs");
    assert_eq!(diagnostics.session_id(), "s1");
}

#[test]
fn export_takes_logs_marker_and_own_dump() {
    let diagnostics = DesktopDiagnostics::new("logs".to_string(), "s1".to_string());
    assert_eq!(diagnostics.export_file_name(), "stemred-diagnostics-s1.zip");
    assert!(diagnostics.is_exported_file("stemred.jsonl", false));
    assert!(diagnostics.is_exported_file("stemred.jsonl.2", false));
    assert!(diagnostics.is_exported_file("panic-marker.json", false));
    assert!(!diagnostics.is_exported_file("hang-s1.dmp", false));
    assert!(diagnostics.is_exported_file("hang-s1.dmp", true));
    assert!(!diagnostics.is_exported_file("hang-s2.dmp", true));
    assert!(!diagnostics.is_exported_file("stemred-diagnostics-s1.zip", true));
    assert!(!diagnostics.is_exported_file("stemred.json", true));
}

#[test]
fn fresh_sessions_get_distinct_ids() {
    let first = DesktopDiagnostics::start("logs".to_string());
    let second = DesktopDiagnostics::start("logs".to_string());
    assert_eq!(first.session_id().len(), 36);
    assert_eq!(uuid::Uuid::parse_str(first.session_id()).unwrap().to_string(), first.session_id());
    assert_ne!(first.session_id(), second.session_id());
}

#[test]
fn log_records_are_sanitized() {
    assert_eq!(sanitize("a\nb\tc", 80), "abc");
    assert_eq!(sanitize("abcdef", 3), "abc");
    assert_eq!(sanitize("\n\n", 3), "");
    assert!(log_target_enabled("stem::runtime"));
    assert!(!log_target_enabled("tauri::app"));
    assert!(!log_target_enabled("stem:"));
}

#[test]
fn logs_rotate_at_five_mebibytes() {
    assert!(!log_rotation_needed(5 * 1024 * 1024 - 1));
    assert!(log_rotation_needed(5 * 1024 * 1024));
    assert_eq!(rotated_log_name(3), "stemred.jsonl.3");
    assert_eq!(clamp_millis(12), 12);
    assert_eq!(clamp_millis(u128::from(u64::MAX) + 1), u64::MAX);
}

#[test]
fn hang_dump_decision_steps() {
    let mut diagnostics = DesktopDiagnostics::new("logs".to_string(), "s2".to_string());
    assert_eq!(diagnostics.pending_hang_dump(), Some("hang-s2.dmp".to_string()));
    assert_eq!(diagnostics.record_hang_dump(Err("busy".to_string())), Err("busy".to_string()));
    assert_eq!(diagnostics.pending_hang_dump(), Some("hang-s2.dmp".to_string()));
    assert_eq!(diagnostics.record_hang_dump(Ok(())), Ok(()));
    assert_eq!(diagnostics.pending_hang_dump(), None);
    let mut calls = 0;
    assert_eq!(
        diagnostics.capture_hang_dump(|_| {
            calls += 1;
            Ok(())
        }),
        Ok(())
    );
    assert_eq!(calls, 0);
}
