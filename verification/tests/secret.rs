use base64::{engine::general_purpose::URL_SAFE_NO_PAD, Engine as _};
use stem_desktop::secret::{
    authorize_secret_crypto_status, constant_time_eq, snapshot_from_readiness, CryptoCoreReadiness,
    SecretAuthContext, SecretAuthTicketPayload, SecretAuthTicketStore, SecretCryptoStatus,
    SecretRuntimeState, TICKET_TTL_NANOS,
};

fn context(account_id: &str, key_byte: u8) -> SecretAuthContext {
    SecretAuthContext::new(
        account_id.to_string(),
        URL_SAFE_NO_PAD.encode([key_byte; 32]),
    )
    .unwrap()
}

#[test]
fn ticket_is_single_use_and_bound_to_crypto_identity() {
    let now = 1_000;
    let mut store = SecretAuthTicketStore::new();
    let expected = context("00000000-0000-4000-8000-000000000001", 7);
    let value = store.issue(expected.duplicate(), now).unwrap();
    assert!(!store
        .consume(&value, &context("00000000-0000-4000-8000-000000000002", 7), now)
        .unwrap());
    assert!(!store.consume(&value, &expected, now).unwrap());

    let value = store.issue(expected.duplicate(), now).unwrap();
    assert!(!store
        .consume(&value, &context("00000000-0000-4000-8000-000000000001", 8), now)
        .unwrap());

    let value = store.issue(expected.duplicate(), now).unwrap();
    assert!(store.consume(&value, &expected, now).unwrap());
    assert!(!store.consume(&value, &expected, now).unwrap());
}

#[test]
fn rejects_non_canonical_crypto_identity() {
    assert!(SecretAuthContext::new("not-a-uuid".to_string(), "a".repeat(43),).is_err());
}

#[test]
fn context_canonicalizes_account_and_checks_key() {
    let key = URL_SAFE_NO_PAD.encode([1u8; 32]);
    let context = SecretAuthContext::new(
        " 00000000-0000-4000-8000-00000000000A ".to_string(),
        key.clone(),
    )
    .expect("valid identity");
    assert_eq!(context.account_id, "00000000-0000-4000-8000-00000000000a");
    assert_eq!(context.crypto_public_key, key);

    let short = URL_SAFE_NO_PAD.encode([1u8; 31]);
    assert_eq!(
        SecretAuthContext::new("00000000-0000-4000-8000-000000000001".to_string(), short)
            .err()
            .as_deref(),
        Some("crypto_device_required")
    );
    let padded = base64::engine::general_purpose::URL_SAFE.encode([1u8; 32]);
    assert!(SecretAuthContext::new("00000000-0000-4000-8000-000000000001".to_string(), padded).is_err());
}

#[test]
fn ticket_expires_after_a_minute() {
    let mut store = SecretAuthTicketStore::new();
    let expected = context("00000000-0000-4000-8000-000000000001", 7);
    let value = store.issue(expected.duplicate(), 0).unwrap();
    assert!(store.consume(&value, &expected, TICKET_TTL_NANOS).unwrap());
    let value = store.issue(expected.duplicate(), 0).unwrap();
    assert!(!store.consume(&value, &expected, TICKET_TTL_NANOS + 1).unwrap());
    let value = store.issue(expected.duplicate(), 0).unwrap();
    assert!(!store.consume("wrong", &expected, 0).unwrap());
    assert!(!store.consume(&value, &expected, 0).unwrap());
}

#[test]
fn constant_time_comparison() {
    assert!(constant_time_eq(b"abc", b"abc"));
    assert!(!constant_time_eq(b"abc", b"abd"));
    assert!(!constant_time_eq(b"abc", b"ab"));
    assert!(constant_time_eq(b"", b""));
}

#[test]
fn runtime_snapshot_without_crypto_core() {
    let snapshot = SecretRuntimeState.snapshot();
    assert_eq!(snapshot.protocol_version, 2);
    assert_eq!(snapshot.status, "unavailable");
    assert_eq!(snapshot.reason, Some("protocol_version_unsupported"));
    let status = SecretCryptoStatus::from_snapshot(snapshot);
    assert_eq!(status.status, "unavailable");
}

fn readiness(blocking: Vec<String>) -> CryptoCoreReadiness {
    CryptoCoreReadiness {
        protocol_version: 2,
        native_initialized: true,
        recovery_primitives_compiled: true,
        sqlcipher_compiled: true,
        sqlcipher_runtime_verified: true,
        mls_application_messages_available: true,
        transparency_verifier_available: true,
        secret_chats_ready: true,
        blocking_reasons: blocking,
    }
}

#[test]
fn runtime_snapshot_from_crypto_core() {
    let ready = snapshot_from_readiness(&readiness(Vec::new()));
    assert_eq!(ready.status, "ready");
    assert_eq!(ready.reason, None);
    let blocked = snapshot_from_readiness(&readiness(vec!["witness".to_string()]));
    assert_eq!(blocked.status, "unavailable");
    assert_eq!(blocked.reason, Some("protocol_version_unsupported"));
    let mut old = readiness(Vec::new());
    old.protocol_version = 1;
    assert_eq!(snapshot_from_readiness(&old).protocol_version, 1);
    assert_eq!(snapshot_from_readiness(&old).status, "unavailable");
}

#[test]
fn status_requests_need_the_secret_window_and_a_ticket() {
    let key = URL_SAFE_NO_PAD.encode([9u8; 32]);
    let account = "00000000-0000-4000-8000-000000000003".to_string();
    let mut store = SecretAuthTicketStore::new();
    let ticket = store
        .issue(SecretAuthContext::new(account.clone(), key.clone()).unwrap(), 0)
        .unwrap();
    assert_eq!(
        authorize_secret_crypto_status("main", &mut store, &ticket, account.clone(), key.clone(), 0)
            .err()
            .as_deref(),
        Some("secret_chat_native_only")
    );
    assert!(authorize_secret_crypto_status("secret", &mut store, &ticket, account.clone(), key.clone(), 0).is_ok());
    assert_eq!(
        authorize_secret_crypto_status("secret", &mut store, &ticket, account, key, 0)
            .err()
            .as_deref(),
        Some("crypto_device_required")
    );
}

#[test]
fn payload_carries_identity_and_ticket() {
    let payload = SecretAuthTicketPayload::new(context("00000000-0000-4000-8000-000000000001", 3), "t".to_string());
    assert_eq!(payload.account_id, "00000000-0000-4000-8000-000000000001");
    assert_eq!(payload.ticket, "t");
}

#[test]
fn parsed_identity_is_checked_against_its_canonical_key() {
    let key = URL_SAFE_NO_PAD.encode([9u8; 32]);
    let context = SecretAuthContext::from_parsed(
        Some("00000000-0000-4000-8000-000000000001".to_string()),
        Some(vec![9u8; 32]),
        key.clone(),
    )
    .expect("valid identity");
    assert_eq!(context.account_id, "00000000-0000-4000-8000-000000000001");
    assert_eq!(context.crypto_public_key, key);
    assert!(SecretAuthContext::from_parsed(None, Some(vec![9u8; 32]), key.clone()).is_err());
    assert!(SecretAuthContext::from_parsed(Some("a".to_string()), None, key.clone()).is_err());
    assert!(SecretAuthContext::from_parsed(Some("a".to_string()), Some(vec![9u8; 31]), key.clone()).is_err());
    assert_eq!(
        SecretAuthContext::from_parsed(Some("a".to_string()), Some(vec![8u8; 32]), key)
            .err()
            .as_deref(),
        Some("crypto_device_required")
    );
}

#[test]
fn tickets_are_fresh_uuids() {
    let mut store = SecretAuthTicketStore::new();
    let first = store.issue(context("00000000-0000-4000-8000-000000000001", 7), 10).unwrap();
    let second = store.issue(context("00000000-0000-4000-8000-000000000001", 7), 10).unwrap();
    assert_eq!(uuid::Uuid::parse_str(&first).unwrap().to_string(), first);
    assert_ne!(first, second);
}
