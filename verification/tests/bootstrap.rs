use stem_desktop::bootstrap::{
    bootstrap_from_config, bootstrap_without_config, parse_version, shell_state,
    status_counts_as_available, update_state, ClientConfig,
};

#[test]
fn shell_version_against_the_server() {
    assert_eq!(update_state("0.1.37", "0.1.8", "0.1.35"), "ready");
    assert_eq!(update_state("0.1.7", "0.1.8", "0.1.35"), "update_required");
    assert_eq!(update_state("0.1.20", "0.1.8", "0.1.35"), "update_available");
    assert_eq!(update_state("v0.1.35", " 0.1.8 ", "0.1.35"), "ready");
    assert_eq!(update_state("garbage", "0.1.8", "0.1.35"), "update_required");
    assert_eq!(update_state("0.1.37", "garbage", "garbage"), "ready");
}

#[test]
fn versions_are_trimmed_and_lose_their_v() {
    assert_eq!(parse_version(" v1.2.3 "), "1.2.3");
    assert_eq!(parse_version("vv2.0.0"), "2.0.0");
    assert_eq!(parse_version("1.2"), "0.0.0");
}

#[test]
fn minimum_wins_over_recommended() {
    assert_eq!(shell_state(true, true), "update_required");
    assert_eq!(shell_state(true, false), "update_required");
    assert_eq!(shell_state(false, true), "update_available");
    assert_eq!(shell_state(false, false), "ready");
}

#[test]
fn bootstrap_with_config() {
    let config = ClientConfig {
        remote_url: "https://evil.example/".to_string(),
        web_build_id: "web-1".to_string(),
        api_build_id: "api-1".to_string(),
        min_shell_version: "0.1.8".to_string(),
        recommended_shell_version: "0.1.40".to_string(),
    };
    let result = bootstrap_from_config("0.1.37".to_string(), config, false);
    assert_eq!(result.state, "update_available");
    assert_eq!(result.remote_url, "https://chat-stem.ru/messages");
    assert_eq!(result.current_shell_version, "0.1.37");
    assert_eq!(result.web_build_id, "web-1");
    assert_eq!(result.api_build_id, "api-1");
    assert_eq!(result.message, None);
}

#[test]
fn bootstrap_without_config_opens_default_domain_when_reachable() {
    let result = bootstrap_without_config("0.1.37".to_string(), "404".to_string(), true);
    assert_eq!(result.state, "ready");
    assert_eq!(result.remote_url, "https://chat-stem.ru/messages");
    assert_eq!(
        result.message,
        Some("Config endpoint unavailable, opening default domain: 404".to_string())
    );
    let offline = bootstrap_without_config("0.1.37".to_string(), "timeout".to_string(), false);
    assert_eq!(offline.state, "offline");
    assert_eq!(offline.min_shell_version, "0.1.0");
    assert_eq!(offline.web_build_id, "unknown");
    assert_eq!(offline.message, Some("timeout".to_string()));
}

#[test]
fn success_and_redirect_statuses_count_as_available() {
    assert!(status_counts_as_available(200));
    assert!(status_counts_as_available(302));
    assert!(status_counts_as_available(399));
    assert!(!status_counts_as_available(404));
    assert!(!status_counts_as_available(199));
}
