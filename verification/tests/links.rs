use stem_desktop::links::initial_remote_url;
use stem_desktop::links::navigation_script;
use stem_desktop::links::{stem_deep_link_route, UrlParts};
use stem_desktop::links::{
    capture_argv_deep_link, check_external_url, is_allowed_url, is_u64_text,
    normalize_remote_url, resolve_stem_deep_link, DEFAULT_REMOTE_URL,
};

fn chars(s: &str) -> Vec<char> {
    s.chars().collect()
}

#[test]
fn deep_link_messages_keeps_query() {
    assert_eq!(
        resolve_stem_deep_link("stem://messages", DEFAULT_REMOTE_URL),
        Some("https://chat-stem.ru/messages".to_string())
    );
    assert_eq!(
        resolve_stem_deep_link("stem://messages?filter=unread", DEFAULT_REMOTE_URL),
        Some("https://chat-stem.ru/messages?filter=unread".to_string())
    );
}

#[test]
fn deep_link_chat_and_room_take_numeric_ids() {
    assert_eq!(
        resolve_stem_deep_link("stem://chat/42", DEFAULT_REMOTE_URL),
        Some("https://chat-stem.ru/messages?user=42".to_string())
    );
    assert_eq!(
        resolve_stem_deep_link("stem://room/7/", DEFAULT_REMOTE_URL),
        Some("https://chat-stem.ru/messages?room=7".to_string())
    );
    assert_eq!(
        resolve_stem_deep_link("stem://chat/abc", DEFAULT_REMOTE_URL),
        Some("https://chat-stem.ru/messages".to_string())
    );
    assert_eq!(
        resolve_stem_deep_link("stem://room/99999999999999999999", DEFAULT_REMOTE_URL),
        Some("https://chat-stem.ru/messages".to_string())
    );
}

#[test]
fn deep_link_replaces_path_and_query_of_the_base() {
    assert_eq!(
        resolve_stem_deep_link("stem://chat/5", "https://chat-stem.ru/settings?tab=2"),
        Some("https://chat-stem.ru/messages?user=5".to_string())
    );
}

#[test]
fn deep_link_auth_callbacks() {
    assert_eq!(
        resolve_stem_deep_link("stem://auth/social/callback?code=abc", DEFAULT_REMOTE_URL),
        Some("https://chat-stem.ru/auth/social/callback?code=abc".to_string())
    );
    assert_eq!(
        resolve_stem_deep_link("stem://auth/social/complete", DEFAULT_REMOTE_URL),
        Some("https://chat-stem.ru/auth/social/complete".to_string())
    );
    assert_eq!(resolve_stem_deep_link("stem://auth/other", DEFAULT_REMOTE_URL), None);
}

#[test]
fn deep_link_rejects_other_links() {
    assert_eq!(resolve_stem_deep_link("stem://settings", DEFAULT_REMOTE_URL), None);
    assert_eq!(resolve_stem_deep_link("https://chat-stem.ru/messages", DEFAULT_REMOTE_URL), None);
    assert_eq!(resolve_stem_deep_link("not a url", DEFAULT_REMOTE_URL), None);
    assert_eq!(resolve_stem_deep_link("stem://messages", "not a url"), None);
}

#[test]
fn argv_deep_link_is_the_first_stem_argument() {
    let args = vec![
        "StemRed.exe".to_string(),
        "--flag".to_string(),
        "stem://chat/1".to_string(),
        "stem://room/2".to_string(),
    ];
    assert_eq!(capture_argv_deep_link(&args), Some("stem://chat/1".to_string()));
    assert_eq!(capture_argv_deep_link(&vec!["StemRed.exe".to_string()]), None);
    assert_eq!(capture_argv_deep_link(&vec!["stem:/x".to_string()]), None);
}

#[test]
fn navigation_is_limited_to_the_messenger_and_the_app() {
    assert!(is_allowed_url("https://chat-stem.ru/messages", false));
    assert!(is_allowed_url("wss://chat-stem.ru/socket", false));
    assert!(is_allowed_url("tauri://localhost", false));
    assert!(!is_allowed_url("https://example.com/", false));
    assert!(!is_allowed_url("http://chat-stem.ru/", false));
    assert!(!is_allowed_url("http://localhost:3010/", false));
    assert!(is_allowed_url("http://localhost:3010/", true));
    assert!(is_allowed_url("ws://127.0.0.1:1420/", true));
    assert!(!is_allowed_url("http://localhost:8080/", true));
    assert!(!is_allowed_url("garbage", true));
}

#[test]
fn remote_url_falls_back_to_the_default() {
    assert_eq!(
        normalize_remote_url("  https://chat-stem.ru/app  ", false),
        "https://chat-stem.ru/app"
    );
    assert_eq!(normalize_remote_url("https://evil.example/", false), DEFAULT_REMOTE_URL);
    assert_eq!(normalize_remote_url("", false), DEFAULT_REMOTE_URL);
}

#[test]
fn only_web_urls_open_externally() {
    assert_eq!(check_external_url("https://example.com/page"), Ok(()));
    assert_eq!(check_external_url("http://example.com"), Ok(()));
    assert_eq!(
        check_external_url("file:///C:/Windows"),
        Err("only http and https URLs can be opened externally".to_string())
    );
    assert_eq!(check_external_url("::"), Err("invalid external URL".to_string()));
}

#[test]
fn u64_text_follows_from_str() {
    assert!(is_u64_text(&chars("0")));
    assert!(is_u64_text(&chars("+12")));
    assert!(is_u64_text(&chars("18446744073709551615")));
    assert!(!is_u64_text(&chars("18446744073709551616")));
    assert!(!is_u64_text(&chars("")));
    assert!(!is_u64_text(&chars("+")));
    assert!(!is_u64_text(&chars("-1")));
    assert!(!is_u64_text(&chars("1a")));
}

#[test]
fn first_page_is_tagged_with_version_and_start() {
    let args = vec!["StemRed.exe".to_string(), "stem://chat/12".to_string()];
    assert_eq!(
        initial_remote_url(&args, "0.1.37", "5"),
        Some(
            "https://chat-stem.ru/messages?user=12&_stem_desktop_shell=0.1.37&_stem_desktop_start=5"
                .to_string()
        )
    );
    assert_eq!(
        initial_remote_url(&vec!["StemRed.exe".to_string()], "0.1.37", "1 2"),
        Some(
            "https://chat-stem.ru/messages?_stem_desktop_shell=0.1.37&_stem_desktop_start=1+2"
                .to_string()
        )
    );
    assert_eq!(
        initial_remote_url(&vec!["stem://unknown".to_string()], "0.1.37", "1"),
        Some("https://chat-stem.ru/messages?_stem_desktop_shell=0.1.37&_stem_desktop_start=1".to_string())
    );
}

#[test]
fn navigation_script_quotes_the_target() {
    assert_eq!(
        navigation_script("https://chat-stem.ru/messages?user=1"),
        "window.location.replace(\"https://chat-stem.ru/messages?user=1\")"
    );
    assert_eq!(
        navigation_script("a\"b"),
        "window.location.replace(\"a\\\"b\")"
    );
}

#[test]
fn route_of_a_parsed_link() {
    let link = UrlParts {
        scheme: "stem".to_string(),
        host: Some("room".to_string()),
        port: None,
        path: "//15/extra".to_string(),
        query: Some("ignored=1".to_string()),
        serialization: "stem://room//15/extra?ignored=1".to_string(),
    };
    assert_eq!(
        stem_deep_link_route(&link),
        Some(("/messages".to_string(), Some("room=15".to_string())))
    );
    let auth = UrlParts {
        scheme: "stem".to_string(),
        host: Some("auth".to_string()),
        port: None,
        path: "/social/complete/".to_string(),
        query: Some("state=x".to_string()),
        serialization: "stem://auth/social/complete/?state=x".to_string(),
    };
    assert_eq!(
        stem_deep_link_route(&auth),
        Some(("/auth/social/complete".to_string(), Some("state=x".to_string())))
    );
    let other = UrlParts {
        scheme: "https".to_string(),
        host: Some("messages".to_string()),
        port: None,
        path: "/".to_string(),
        query: None,
        serialization: "https://messages/".to_string(),
    };
    assert_eq!(stem_deep_link_route(&other), None);
}
