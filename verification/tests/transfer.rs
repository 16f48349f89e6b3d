use stem_desktop::transfer::{
    bounded_read_length, ensure_base64_input_size, ensure_decoded_size, transfer_is_stale,
    DesktopPartialFile, DesktopTransferBudget, DESKTOP_TRANSFER_CAPACITY_EXCEEDED,
    DESKTOP_TRANSFER_IDLE_TIMEOUT_NANOS, DESKTOP_TRANSFER_MAX_ACTIVE,
    DESKTOP_TRANSFER_MAX_CHUNK_BYTES, DESKTOP_TRANSFER_MAX_PENDING_BYTES,
    DESKTOP_TRANSFER_PAYLOAD_TOO_LARGE,
};

const SECOND_NANOS: u128 = 1_000_000_000;

#[test]
fn caps_active_transfers_and_releases_capacity() {
    let mut budget = DesktopTransferBudget::default();
    let permits = (0..DESKTOP_TRANSFER_MAX_ACTIVE)
        .map(|_| budget.acquire().expect("permit"))
        .collect::<Vec<_>>();

    assert_eq!(
        budget.acquire().err().expect("active transfer limit"),
        DESKTOP_TRANSFER_CAPACITY_EXCEEDED
    );

    for permit in permits {
        budget.release(permit);
    }
    assert!(budget.acquire().is_ok());
}

#[test]
fn caps_aggregate_pending_bytes_and_releases_them() {
    let mut budget = DesktopTransferBudget::default();
    let mut first = budget.acquire().expect("first permit");
    let mut second = budget.acquire().expect("second permit");

    first
        .reserve_bytes(&mut budget, DESKTOP_TRANSFER_MAX_PENDING_BYTES)
        .expect("full budget");
    assert_eq!(
        second.reserve_bytes(&mut budget, 1),
        Err(DESKTOP_TRANSFER_PAYLOAD_TOO_LARGE)
    );

    budget.release(first);
    assert!(second
        .reserve_bytes(&mut budget, DESKTOP_TRANSFER_MAX_PENDING_BYTES)
        .is_ok());
}

#[test]
fn bounds_base64_and_decoded_chunk_payloads() {
    let max_encoded = DESKTOP_TRANSFER_MAX_CHUNK_BYTES.div_ceil(3) * 4;
    let valid = "A".repeat(max_encoded);
    let oversized = "A".repeat(max_encoded + 1);

    assert!(ensure_base64_input_size(&valid, DESKTOP_TRANSFER_MAX_CHUNK_BYTES).is_ok());
    assert_eq!(
        ensure_base64_input_size(&oversized, DESKTOP_TRANSFER_MAX_CHUNK_BYTES),
        Err(DESKTOP_TRANSFER_PAYLOAD_TOO_LARGE)
    );
    assert_eq!(
        ensure_decoded_size(
            DESKTOP_TRANSFER_MAX_CHUNK_BYTES + 1,
            DESKTOP_TRANSFER_MAX_CHUNK_BYTES
        ),
        Err(DESKTOP_TRANSFER_PAYLOAD_TOO_LARGE)
    );
}

#[test]
fn clamps_native_read_allocation() {
    assert_eq!(
        bounded_read_length(usize::MAX, u64::MAX),
        DESKTOP_TRANSFER_MAX_CHUNK_BYTES
    );
    assert_eq!(bounded_read_length(32, 12), 12);
}

#[test]
fn expires_idle_transfers() {
    let now: u128 = 10_000 * SECOND_NANOS;

    assert!(transfer_is_stale(
        now - DESKTOP_TRANSFER_IDLE_TIMEOUT_NANOS - SECOND_NANOS,
        now
    ));
    assert!(!transfer_is_stale(
        now - DESKTOP_TRANSFER_IDLE_TIMEOUT_NANOS + SECOND_NANOS,
        now
    ));
    assert!(!transfer_is_stale(now, now - SECOND_NANOS));
}

#[test]
fn removes_partial_files_unless_preserved() {
    let guard = DesktopPartialFile::new("/downloads/partial.bin".to_string());
    assert_eq!(guard.path(), "/downloads/partial.bin");
    assert_eq!(guard.into_leftover(), Some("/downloads/partial.bin".to_string()));

    let mut guard = DesktopPartialFile::new("/downloads/completed.bin".to_string());
    guard.preserve();
    assert_eq!(guard.into_leftover(), None);
}

#[test]
fn base64_size_check_trims_whitespace() {
    assert_eq!(ensure_base64_input_size("  QUJD \n", 3), Ok("QUJD"));
    assert_eq!(
        ensure_base64_input_size("QUJDRA", 3),
        Err(DESKTOP_TRANSFER_PAYLOAD_TOO_LARGE)
    );
    assert_eq!(ensure_base64_input_size("", 0), Ok(""));
    assert!(ensure_base64_input_size(&"A".repeat(8), usize::MAX).is_ok());
}

#[test]
fn release_returns_reserved_bytes_to_the_budget() {
    let mut budget = DesktopTransferBudget::default();
    let mut permit = budget.acquire().expect("permit");
    permit.reserve_bytes(&mut budget, 1_000).expect("reserve");
    permit.reserve_bytes(&mut budget, 24).expect("reserve more");
    assert_eq!(permit.reserved_bytes(), 1_024);
    assert_eq!(budget.pending_bytes(), 1_024);
    assert_eq!(budget.active_transfers(), 1);
    budget.release(permit);
    assert_eq!(budget.pending_bytes(), 0);
    assert_eq!(budget.active_transfers(), 0);
}

#[test]
fn refused_reservation_changes_nothing() {
    let mut budget = DesktopTransferBudget::default();
    let mut permit = budget.acquire().expect("permit");
    permit.reserve_bytes(&mut budget, 10).expect("reserve");
    assert_eq!(
        permit.reserve_bytes(&mut budget, u64::MAX),
        Err(DESKTOP_TRANSFER_PAYLOAD_TOO_LARGE)
    );
    assert_eq!(permit.reserved_bytes(), 10);
    assert_eq!(budget.pending_bytes(), 10);
}

#[test]
fn read_length_is_smallest_of_request_remaining_and_chunk() {
    assert_eq!(bounded_read_length(10, 100), 10);
    assert_eq!(bounded_read_length(5_000_000, 3_000_000), DESKTOP_TRANSFER_MAX_CHUNK_BYTES);
    assert_eq!(bounded_read_length(5_000_000, 7), 7);
    assert_eq!(bounded_read_length(0, 7), 0);
}

#[test]
fn staleness_boundary_is_the_timeout_itself() {
    assert!(transfer_is_stale(0, DESKTOP_TRANSFER_IDLE_TIMEOUT_NANOS));
    assert!(!transfer_is_stale(1, DESKTOP_TRANSFER_IDLE_TIMEOUT_NANOS));
}
