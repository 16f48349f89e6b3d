//! Properties of the update coordinator that span its steps.
use vstd::prelude::*;

use crate::update::{
    after_check_failure, after_check_start, after_download, after_install_failure,
    after_install_request, after_no_update, after_progress, after_runtime_ready,
    after_update_found, auto_install_due, boot_pending_confirmation, check_skipped, coordinator_consistent,
    install_starts, normalized_journal, progress_percent, recovered, sat_sub, with_safety,
    CoordinatorView, JournalView,
};
use crate::update_rules::{
    blocker_reported, fallback_interval, normalized_blockers, retry_delay_ms, safety_blockers,
    UpdatePolicy, BOOT_FAILURE_WINDOW_MS, CHECK_FALLBACK_INTERVAL_MS,
};
use crate::text::{lemma_text_le_transitive, text_le};

verus! {

/// A reported blocker always holds an update back: whatever the idle time or window state,
/// it neither installs by itself nor starts an install on request.
pub proof fn law_blockers_override_safe_points(
    v: CoordinatorView,
    reported: Seq<Seq<char>>,
    window_hidden_report: bool,
    idle_seconds: u64,
    window_hidden: bool,
)
    requires
        normalized_blockers(reported).len() > 0,
    ensures
        !auto_install_due(with_safety(v, reported, window_hidden_report), idle_seconds, window_hidden),
        !install_starts(with_safety(v, reported, window_hidden_report)),
        with_safety(v, reported, window_hidden_report).downloaded_bytes is Some ==> with_safety(
            v,
            reported,
            window_hidden_report,
        ).snapshot.phase == "waiting_safe_point"@,
{
}

/// A request to install while blockers are reported leaves the download in place.
pub proof fn law_blocked_install_keeps_download(v: CoordinatorView, now: u64)
    requires
        !v.install_in_flight,
        v.snapshot.blockers.len() > 0,
    ensures
        after_install_request(v, now).downloaded_bytes == v.downloaded_bytes,
        after_install_request(v, now).pending_update == v.pending_update,
        !after_install_request(v, now).install_in_flight,
        after_install_request(v, now).journal == v.journal,
{
}

/// A version that failed to boot is never downloaded again: an offer of it ends the check in
/// quarantine and leaves any download as it was.
pub proof fn law_quarantined_version_not_downloaded(v: CoordinatorView, version: Seq<char>, policy: UpdatePolicy)
    requires
        v.journal.quarantined_versions.contains(version),
    ensures
        after_update_found(v, version, policy).snapshot.quarantined,
        after_update_found(v, version, policy).snapshot.phase == "quarantined"@,
        !after_update_found(v, version, policy).check_in_flight,
        after_update_found(v, version, policy).downloaded_bytes == v.downloaded_bytes,
{
}

/// A second start of an installed version within the failure window, without a ready report
/// in between, quarantines that version.
pub proof fn law_repeated_boot_failure_quarantines(
    stored: JournalView,
    current: Seq<char>,
    now: u64,
    requested_channel: Option<Seq<char>>,
    install_id_valid: bool,
    fresh_install_id: Seq<char>,
)
    requires
        stored.pending_version == Some(current),
        stored.boot_started_at_ms matches Some(previous) && sat_sub(now, previous) <= BOOT_FAILURE_WINDOW_MS,
        stored.boot_failures >= 1,
    ensures
        recovered(stored, current, now, requested_channel, install_id_valid, fresh_install_id).snapshot.quarantined,
        recovered(stored, current, now, requested_channel, install_id_valid, fresh_install_id).journal.quarantined_versions.contains(current),
{
    let j = normalized_journal(stored, install_id_valid, fresh_install_id, requested_channel);
    assert(j.pending_version == stored.pending_version);
    assert(j.boot_failures == stored.boot_failures);
    assert(j.boot_started_at_ms == stored.boot_started_at_ms);
    assert(j.quarantined_versions == stored.quarantined_versions);
    if !j.quarantined_versions.contains(current) {
        assert(j.quarantined_versions.push(current).last() == current);
        assert(j.quarantined_versions.push(current).contains(current));
    }
}

/// Boot failures of the installed version are counted only within the ten-minute failure
/// window: a start more than ten minutes after the previous one starts the count again at one
/// and does not quarantine the version, while a start within the window adds one.
pub proof fn law_boot_failures_count_within_window(
    stored: JournalView,
    current: Seq<char>,
    now: u64,
    previous: u64,
    requested_channel: Option<Seq<char>>,
    install_id_valid: bool,
    fresh_install_id: Seq<char>,
)
    requires
        stored.pending_version == Some(current),
        stored.boot_started_at_ms == Some(previous),
    ensures
        now as int > previous as int + 600_000 ==> {
            let r = recovered(stored, current, now, requested_channel, install_id_valid, fresh_install_id);
            &&& r.journal.boot_failures == 1
            &&& r.journal.boot_started_at_ms == Some(now)
            &&& r.journal.quarantined_versions == stored.quarantined_versions
            &&& !r.snapshot.quarantined
            &&& r.snapshot.phase == "verifying_boot"@
            &&& r.snapshot.error_code is None
            &&& r.snapshot.target_version == Some(current)
        },
        now as int <= previous as int + 600_000 && stored.boot_failures < 255 ==> recovered(
            stored,
            current,
            now,
            requested_channel,
            install_id_valid,
            fresh_install_id,
        ).journal.boot_failures == stored.boot_failures + 1,
{
    let j = normalized_journal(stored, install_id_valid, fresh_install_id, requested_channel);
    assert(j.pending_version == stored.pending_version);
    assert(j.boot_failures == stored.boot_failures);
    assert(j.boot_started_at_ms == stored.boot_started_at_ms);
    assert(j.quarantined_versions == stored.quarantined_versions);
}

/// An install that was never applied (the shell starts at another version) is forgotten and
/// reported as such.
pub proof fn law_unapplied_install_forgotten(
    stored: JournalView,
    current: Seq<char>,
    now: u64,
    requested_channel: Option<Seq<char>>,
    install_id_valid: bool,
    fresh_install_id: Seq<char>,
)
    requires
        stored.pending_version is Some,
        stored.pending_version != Some(current),
    ensures
        recovered(stored, current, now, requested_channel, install_id_valid, fresh_install_id).journal.pending_version is None,
        recovered(stored, current, now, requested_channel, install_id_valid, fresh_install_id).journal.last_error_code
            == Some("install_not_applied"@),
        !recovered(stored, current, now, requested_channel, install_id_valid, fresh_install_id).snapshot.quarantined,
{
}

/// The channel after start-up is always `stable` or `canary`.
pub proof fn law_channel_is_known(
    stored: JournalView,
    current: Seq<char>,
    now: u64,
    requested_channel: Option<Seq<char>>,
    install_id_valid: bool,
    fresh_install_id: Seq<char>,
)
    ensures
        recovered(stored, current, now, requested_channel, install_id_valid, fresh_install_id).journal.channel == "stable"@
            || recovered(stored, current, now, requested_channel, install_id_valid, fresh_install_id).journal.channel == "canary"@,
{
}

/// A ready report that confirms the boot of the installed version ends its update: nothing
/// is pending, the version is no longer quarantined, and the snapshot says `complete`.
pub proof fn law_confirmed_boot_ends_update(v: CoordinatorView)
    requires
        boot_pending_confirmation(v),
    ensures
        after_runtime_ready(v).journal.pending_version is None,
        after_runtime_ready(v).journal.boot_failures == 0,
        !after_runtime_ready(v).journal.quarantined_versions.contains(v.snapshot.current_version),
        after_runtime_ready(v).snapshot.phase == "complete"@,
        after_runtime_ready(v).journal.cached_runtime_ready,
{
    let current = v.snapshot.current_version;
    let kept = v.journal.quarantined_versions.filter(|q: Seq<char>| q != current);
    if kept.contains(current) {
        let i = choose|i: int| 0 <= i < kept.len() && kept[i] == current;
        v.journal.quarantined_versions.lemma_filter_pred(|q: Seq<char>| q != current, i);
    }
}

/// After a failed check the next one waits between one minute and six hours, and the wait
/// never shrinks as failures accumulate.
pub proof fn law_retry_backoff(v: CoordinatorView, code: Seq<char>, now: u64, more_failures: int, fewer_failures: int)
    requires
        now as int + 21_600_000 <= u64::MAX,
        fewer_failures <= more_failures,
    ensures
        after_check_failure(v, code, now).next_check_at_ms >= now + 60_000,
        after_check_failure(v, code, now).next_check_at_ms <= now + 21_600_000,
        retry_delay_ms(fewer_failures) <= retry_delay_ms(more_failures),
        !after_check_failure(v, code, now).check_in_flight,
{
}

/// Failed checks back off as one minute, five minutes, half an hour and then six hours, by
/// how many checks in a row have failed; each failure is counted and its code reported.
pub proof fn law_retry_schedule(v: CoordinatorView, code: Seq<char>, now: u64)
    requires
        now as int + 21_600_000 <= u64::MAX,
        v.check_failures < usize::MAX,
    ensures
        ({
            let r = after_check_failure(v, code, now);
            &&& r.check_failures == v.check_failures + 1
            &&& r.snapshot.phase == "failed"@
            &&& r.snapshot.error_code == Some(code)
            &&& r.journal.last_error_code == Some(code)
            &&& v.check_failures == 0 ==> r.next_check_at_ms == now + 60_000
            &&& v.check_failures == 1 ==> r.next_check_at_ms == now + 300_000
            &&& v.check_failures == 2 ==> r.next_check_at_ms == now + 1_800_000
            &&& v.check_failures >= 3 ==> r.next_check_at_ms == now + 21_600_000
        }),
{
}

/// Background checks are spread between 12 and 18 minutes apart, the same for an install id
/// every time.
pub proof fn law_fallback_interval_bounded(install_id: Seq<char>)
    ensures
        CHECK_FALLBACK_INTERVAL_MS * 4 / 5 <= fallback_interval(install_id) <= CHECK_FALLBACK_INTERVAL_MS * 6 / 5,
        fallback_interval(install_id) <= 18 * 60 * 1_000,
{
    let seed = crate::update_rules::install_seed(vstd::utf8::encode_utf8(install_id));
    assert(seed as int % 360_001 < 360_001);
}

/// A check that the user asked for is never skipped for being too soon after the last one.
pub proof fn law_manual_check_not_rate_limited(v: CoordinatorView, now: u64)
    requires
        !v.check_in_flight,
        !v.install_in_flight,
        v.downloaded_bytes is None,
    ensures
        !check_skipped(v, now, true, true),
{
}

/// Download progress never exceeds 100 percent.
pub proof fn law_progress_at_most_full(downloaded: u64, total: Option<u64>)
    ensures
        progress_percent(downloaded, total) matches Some(p) ==> p <= 100,
{
}

/// Download progress is known only for a positive total; it starts at 0, reaches 100 once
/// the whole total is downloaded (where a hundred times the count fits in 64 bits), and never
/// goes down as more is downloaded.
pub proof fn law_progress_tracks_download(less: u64, more: u64, total: u64)
    requires
        less <= more,
    ensures
        progress_percent(less, None) is None,
        progress_percent(less, Some(0)) is None,
        total > 0 ==> progress_percent(0, Some(total)) == Some(0u8),
        total > 0 && more >= total && more * 100 <= u64::MAX ==> progress_percent(more, Some(total))
            == Some(100u8),
        total > 0 ==> progress_percent(less, Some(total))->0 <= progress_percent(more, Some(total))->0,
        total > 0 && less * 100 <= u64::MAX ==> progress_percent(less, Some(total))->0 as int == if less
            * 100 / (total as int) < 100 {
            less * 100 / (total as int)
        } else {
            100
        },
{
    if total > 0 {
        let t = total as int;
        let sl: int = if less * 100 > u64::MAX {
            u64::MAX as int
        } else {
            less * 100
        };
        let sm: int = if more * 100 > u64::MAX {
            u64::MAX as int
        } else {
            more * 100
        };
        assert(sl <= sm) by (nonlinear_arith)
            requires
                less <= more,
                sl == if less * 100 > u64::MAX { u64::MAX as int } else { less * 100 },
                sm == if more * 100 > u64::MAX { u64::MAX as int } else { more * 100 },
        ;
        assert(sl / t <= sm / t) by (nonlinear_arith)
            requires
                sl <= sm,
                t > 0,
        ;
        if more >= total && more * 100 <= u64::MAX {
            assert(sm >= 100 * t) by (nonlinear_arith)
                requires
                    more >= t,
                    sm == more * 100,
            ;
            assert(sm / t >= 100) by (nonlinear_arith)
                requires
                    sm >= 100 * t,
                    t > 0,
            ;
        }
        assert(0int / t == 0) by (nonlinear_arith)
            requires
                t > 0,
        ;
    }
}

/// An install that the installer refuses gives the download back: it can be installed again,
/// and the journal no longer claims an install is pending.
pub proof fn law_failed_install_restores_download(v: CoordinatorView, now: u64)
    requires
        install_starts(v),
    ensures
        after_install_failure(after_install_request(v, now), v.pending_update->0, v.downloaded_bytes->0).downloaded_bytes
            == v.downloaded_bytes,
        after_install_failure(after_install_request(v, now), v.pending_update->0, v.downloaded_bytes->0).pending_update
            == v.pending_update,
        after_install_failure(after_install_request(v, now), v.pending_update->0, v.downloaded_bytes->0).journal.pending_version
            is None,
        install_starts(after_install_failure(after_install_request(v, now), v.pending_update->0, v.downloaded_bytes->0)),
{
}

/// Start-up yields a consistent coordinator, and every step keeps it consistent: safety
/// reports, ready reports, heartbeats, starting a check that is not skipped, a failed or empty
/// check, an offered update, progress, a finished download of a running check, an install
/// request, and the failure of a running install.
pub proof fn law_steps_keep_coordinator_consistent(
    v: CoordinatorView,
    stored: JournalView,
    current: Seq<char>,
    now: u64,
    requested_channel: Option<Seq<char>>,
    install_id_valid: bool,
    fresh_install_id: Seq<char>,
    reported: Seq<Seq<char>>,
    window_hidden: bool,
    force: bool,
    user_initiated: bool,
    code: Seq<char>,
    version: Seq<char>,
    policy: UpdatePolicy,
    downloaded: u64,
    total: Option<u64>,
    bytes: Seq<u8>,
)
    requires
        coordinator_consistent(v),
    ensures
        coordinator_consistent(
            recovered(stored, current, now, requested_channel, install_id_valid, fresh_install_id),
        ),
        coordinator_consistent(with_safety(v, reported, window_hidden)),
        coordinator_consistent(after_runtime_ready(v)),
        coordinator_consistent(CoordinatorView { last_heartbeat_at_ms: now, runtime_visible: window_hidden, ..v }),
        coordinator_consistent(CoordinatorView { hang_dump_captured: true, ..v }),
        !check_skipped(v, now, force, user_initiated) ==> coordinator_consistent(after_check_start(v, now)),
        coordinator_consistent(after_check_failure(v, code, now)),
        coordinator_consistent(after_no_update(v, now)),
        coordinator_consistent(after_update_found(v, version, policy)),
        coordinator_consistent(after_progress(v, downloaded, total)),
        v.check_in_flight ==> coordinator_consistent(after_download(v, version, bytes, now)),
        coordinator_consistent(after_install_request(v, now)),
        v.install_in_flight ==> coordinator_consistent(after_install_failure(v, version, bytes)),
{
}

/// Any reported blocker holds the update back: it does not install by itself, whatever the
/// idle time and window state, and an install request does not start. Every coordinator is
/// consistent (a type invariant, which `snapshot` and `should_auto_install` state of the
/// coordinator they read), so this holds of every coordinator's view.
pub proof fn law_blocker_stops_auto_install(v: CoordinatorView, idle_seconds: u64, window_hidden: bool)
    requires
        coordinator_consistent(v),
        v.snapshot.blockers.len() > 0,
    ensures
        !v.snapshot.install_ready,
        !auto_install_due(v, idle_seconds, window_hidden),
        !install_starts(v),
{
}

/// A held, unblocked download that is not being installed installs by itself at a safe
/// point: whenever the window is hidden (as reported or as asked now), or the user has been
/// idle for ten minutes; and at no other time.
pub proof fn law_safe_point_installs(v: CoordinatorView, idle_seconds: u64, window_hidden: bool)
    ensures
        v.downloaded_bytes is Some && v.snapshot.install_ready && !v.install_in_flight ==> {
            &&& auto_install_due(v, idle_seconds, true)
            &&& idle_seconds >= 600 ==> auto_install_due(v, idle_seconds, window_hidden)
            &&& v.safety_window_hidden ==> auto_install_due(v, idle_seconds, window_hidden)
            &&& !v.safety_window_hidden && !window_hidden && idle_seconds < 600 ==> !auto_install_due(
                v,
                idle_seconds,
                window_hidden,
            )
        },
        v.downloaded_bytes is None || !v.snapshot.install_ready || v.install_in_flight
            ==> !auto_install_due(v, idle_seconds, window_hidden),
{
}

/// A download that finishes while nothing blocks the update is ready to install, and installs
/// by itself as soon as the window is hidden or the user has been idle for ten minutes.
pub proof fn law_finished_download_installs_at_safe_point(
    v: CoordinatorView,
    version: Seq<char>,
    bytes: Seq<u8>,
    now: u64,
    idle_seconds: u64,
)
    requires
        v.snapshot.blockers.len() == 0,
        !v.install_in_flight,
    ensures
        after_download(v, version, bytes, now).snapshot.install_ready,
        after_download(v, version, bytes, now).downloaded_bytes == Some(bytes),
        after_download(v, version, bytes, now).pending_update == Some(version),
        auto_install_due(after_download(v, version, bytes, now), idle_seconds, true),
        idle_seconds >= 600 ==> auto_install_due(after_download(v, version, bytes, now), idle_seconds, false),
        install_starts(after_download(v, version, bytes, now)) <==> !v.snapshot.quarantined,
{
}

/// Every normalized blocker is on the allowlist, appears once, and they come sorted.
pub proof fn law_blockers_allowlisted_sorted_and_unique(reported: Seq<Seq<char>>)
    ensures
        forall|i: int| 0 <= i < normalized_blockers(reported).len() ==> safety_blockers().contains(
            #[trigger] normalized_blockers(reported)[i],
        ),
        normalized_blockers(reported).no_duplicates(),
        texts_sorted(normalized_blockers(reported)),
{
    let f = |b: Seq<char>| blocker_reported(reported, b);
    let out = normalized_blockers(reported);
    assert forall|i: int| 0 <= i < out.len() implies safety_blockers().contains(#[trigger] out[i]) by {
        safety_blockers().lemma_filter_contains_rev(f, out[i]);
        assert(safety_blockers().filter(f).contains(out[i]));
    }
    reveal_strlit("attachment_editor");
    reveal_strlit("cache_migration");
    reveal_strlit("call");
    reveal_strlit("draft");
    reveal_strlit("outbox");
    reveal_strlit("recording");
    reveal_strlit("transfer");
    let lens = seq![17int, 15, 4, 5, 6, 9, 8];
    assert forall|i: int| 0 <= i < 7 implies #[trigger] safety_blockers()[i].len() == lens[i] by {
        assert("attachment_editor"@.len() == 17);
        assert("cache_migration"@.len() == 15);
        assert("call"@.len() == 4);
        assert("draft"@.len() == 5);
        assert("outbox"@.len() == 6);
        assert("recording"@.len() == 9);
        assert("transfer"@.len() == 8);
    }
    assert(safety_blockers().no_duplicates()) by {
        assert forall|i: int, j: int| 0 <= i < 7 && 0 <= j < 7 && i != j implies safety_blockers()[i]
            != safety_blockers()[j] by {
            assert(safety_blockers()[i].len() == lens[i]);
            assert(safety_blockers()[j].len() == lens[j]);
        }
    }
    lemma_filter_no_duplicates(safety_blockers(), f);
    lemma_allowlist_sorted();
    lemma_filter_sorted(safety_blockers(), f);
}

/// Texts in ascending order.
pub open spec fn texts_sorted(s: Seq<Seq<char>>) -> bool {
    forall|i: int, j: int| 0 <= i < j < s.len() ==> text_le(#[trigger] s[i], #[trigger] s[j])
}

proof fn lemma_allowlist_sorted()
    ensures
        texts_sorted(safety_blockers()),
{
    reveal_strlit("attachment_editor");
    reveal_strlit("cache_migration");
    reveal_strlit("call");
    reveal_strlit("draft");
    reveal_strlit("outbox");
    reveal_strlit("recording");
    reveal_strlit("transfer");
    let s = safety_blockers();
    reveal_with_fuel(text_le, 4);
    assert(text_le(s[0], s[1]));
    assert(text_le(s[1], s[2]));
    assert(text_le(s[2], s[3]));
    assert(text_le(s[3], s[4]));
    assert(text_le(s[4], s[5]));
    assert(text_le(s[5], s[6]));
    assert forall|i: int, j: int| 0 <= i < j < s.len() implies text_le(#[trigger] s[i], #[trigger] s[j]) by {
        lemma_adjacent_chain(s, i, j);
    }
}

proof fn lemma_adjacent_chain(s: Seq<Seq<char>>, i: int, j: int)
    requires
        0 <= i < j < s.len(),
        forall|k: int| 0 <= k < s.len() - 1 ==> text_le(#[trigger] s[k], s[k + 1]),
    ensures
        text_le(s[i], s[j]),
    decreases j - i,
{
    if i + 1 < j {
        lemma_adjacent_chain(s, i, j - 1);
        assert(text_le(s[j - 1], s[j]));
        lemma_text_le_transitive(s[i], s[j - 1], s[j]);
    }
}

/// Filtering keeps texts in ascending order.
proof fn lemma_filter_sorted(s: Seq<Seq<char>>, p: spec_fn(Seq<char>) -> bool)
    requires
        texts_sorted(s),
    ensures
        texts_sorted(s.filter(p)),
    decreases s.len(),
{
    reveal_with_fuel(Seq::filter, 1);
    if s.len() > 0 {
        let rest = s.drop_last();
        assert(texts_sorted(rest)) by {
            assert forall|i: int, j: int| 0 <= i < j < rest.len() implies text_le(#[trigger] rest[i], #[trigger] rest[j]) by {
                assert(rest[i] == s[i] && rest[j] == s[j]);
            }
        }
        lemma_filter_sorted(rest, p);
        if p(s.last()) {
            let f = rest.filter(p);
            let g = f.push(s.last());
            assert forall|i: int, j: int| 0 <= i < j < g.len() implies text_le(#[trigger] g[i], #[trigger] g[j]) by {
                if j == f.len() as int {
                    assert(g[i] == f[i]);
                    rest.lemma_filter_contains_rev(p, f[i]);
                    let k = choose|k: int| 0 <= k < rest.len() && rest[k] == f[i];
                    assert(s[k] == f[i]);
                    assert(text_le(s[k], s[s.len() - 1]));
                } else {
                    assert(f[i] == g[i] && f[j] == g[j]);
                }
            }
        }
    }
}

/// Filtering keeps a sequence free of repetitions.
proof fn lemma_filter_no_duplicates<A>(s: Seq<A>, p: spec_fn(A) -> bool)
    requires
        s.no_duplicates(),
    ensures
        s.filter(p).no_duplicates(),
    decreases s.len(),
{
    reveal_with_fuel(Seq::filter, 1);
    if s.len() > 0 {
        let rest = s.drop_last();
        assert(rest.no_duplicates()) by {
            assert forall|i: int, j: int| 0 <= i < rest.len() && 0 <= j < rest.len() && i != j implies rest[i] != rest[j] by {
                assert(rest[i] == s[i] && rest[j] == s[j]);
            }
        }
        lemma_filter_no_duplicates(rest, p);
        if p(s.last()) {
            let f = rest.filter(p);
            assert(!rest.contains(s.last())) by {
                if rest.contains(s.last()) {
                    let k = choose|k: int| 0 <= k < rest.len() && rest[k] == s.last();
                    assert(s[k] == s[s.len() - 1]);
                }
            }
            assert(!f.contains(s.last())) by {
                if f.contains(s.last()) {
                    rest.lemma_filter_contains_rev(p, s.last());
                }
            }
            let g = f.push(s.last());
            assert forall|i: int, j: int| 0 <= i < g.len() && 0 <= j < g.len() && i != j implies g[i] != g[j] by {
                if i == f.len() as int {
                    assert(f[j] == g[j]);
                } else if j == f.len() as int {
                    assert(f[i] == g[i]);
                } else {
                    assert(f[i] == g[i] && f[j] == g[j]);
                }
            }
        }
    }
}

} // verus!
