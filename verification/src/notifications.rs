//! Desktop notifications: what is shown of a request, and the suppression of repeats.
use vstd::prelude::*;

use crate::text::{chars_of, opt_str, owned, trim, trim_ws};
use crate::update_rules::string_of;

verus! {

pub const DESKTOP_NOTIFICATION_RECENT_LIMIT: usize = 128;

pub const DEFAULT_DEDUPE_MS: u64 = 15_000;

pub const MIN_DEDUPE_MS: u64 = 1_000;

/// A notification that the web client asks the shell to show.
pub struct DesktopNotificationRequest {
    pub title: String,
    pub body: Option<String>,
    pub dedupe_key: Option<String>,
    pub dedupe_ms: Option<u64>,
    pub sound: Option<String>,
}

/// What is shown of a request.
pub struct NotificationContent {
    pub title: String,
    pub body: Option<String>,
    pub sound: Option<String>,
}

/// At most the first `n` characters of `s`.
pub open spec fn first_chars(s: Seq<char>, n: nat) -> Seq<char> {
    if s.len() <= n {
        s
    } else {
        s.take(n as int)
    }
}

/// An optional text, trimmed, dropped when empty, and cut to `n` characters.
pub open spec fn optional_text(value: Option<Seq<char>>, n: nat) -> Option<Seq<char>> {
    match value {
        Some(v) => if trim_ws(v).len() > 0 {
            Some(first_chars(trim_ws(v), n))
        } else {
            None
        },
        None => None,
    }
}

fn first_chars_of(s: &str, n: usize) -> (r: String)
    ensures
        r@ == first_chars(s@, n as nat),
{
    let chars = chars_of(s);
    let end = if chars.len() <= n {
        chars.len()
    } else {
        n
    };
    let r = string_of(&chars, 0, end);
    proof {
        if chars@.len() <= n {
            assert(chars@.subrange(0, end as int) =~= chars@);
        }
    }
    r
}

fn optional_text_of(value: &Option<String>, n: usize) -> (r: Option<String>)
    ensures
        opt_str(r) == optional_text(opt_str(*value), n as nat),
{
    match value {
        Some(v) => {
            let trimmed = trim(v.as_str());
            if trimmed.is_empty() {
                None
            } else {
                Some(first_chars_of(trimmed, n))
            }
        },
        None => None,
    }
}

/// The notification to show: nothing when the title is blank; otherwise the trimmed title
/// (80 characters at most), body (240) and sound (260), the last two only when not blank.
pub fn notification_content(request: &DesktopNotificationRequest) -> (r: Option<NotificationContent>)
    ensures
        r is None <==> trim_ws(request.title@).len() == 0,
        r matches Some(c) ==> c.title@ == first_chars(trim_ws(request.title@), 80) && opt_str(c.body)
            == optional_text(opt_str(request.body), 240) && opt_str(c.sound) == optional_text(
            opt_str(request.sound),
            260,
        ),
{
    let title = trim(request.title.as_str());
    if title.is_empty() {
        return None;
    }
    Some(
        NotificationContent {
            title: first_chars_of(title, 80),
            body: optional_text_of(&request.body, 240),
            sound: optional_text_of(&request.sound, 260),
        },
    )
}

pub open spec fn sat_sub_u128(a: u128, b: u128) -> u128 {
    if a >= b {
        (a - b) as u128
    } else {
        0
    }
}

/// How long a key suppresses repeats: the requested time, 15 seconds by default, at least
/// one second.
pub open spec fn dedupe_window(dedupe_ms: Option<u64>) -> u128 {
    let requested = match dedupe_ms {
        Some(ms) => ms,
        None => DEFAULT_DEDUPE_MS,
    };
    if requested < MIN_DEDUPE_MS {
        MIN_DEDUPE_MS as u128
    } else {
        requested as u128
    }
}

/// The dedupe key of a request: trimmed, and absent when blank.
pub open spec fn dedupe_key_of(key: Option<Seq<char>>) -> Option<Seq<char>> {
    match key {
        Some(k) => if trim_ws(k).len() > 0 {
            Some(trim_ws(k))
        } else {
            None
        },
        None => None,
    }
}

/// The notifications seen within the window before `now`.
pub open spec fn still_recent(recent: Seq<(Seq<char>, u128)>, now: u128, window: u128) -> Seq<(Seq<char>, u128)> {
    recent.filter(|e: (Seq<char>, u128)| sat_sub_u128(now, e.1) <= window)
}

pub open spec fn seen(recent: Seq<(Seq<char>, u128)>, key: Seq<char>) -> bool {
    exists|i: int| 0 <= i < recent.len() && (#[trigger] recent[i]).0 == key
}

/// The record after `key` is seen at `now`: the newest 128 entries.
pub open spec fn recorded(recent: Seq<(Seq<char>, u128)>, key: Seq<char>, now: u128) -> Seq<(Seq<char>, u128)> {
    let pushed = recent.push((key, now));
    if pushed.len() > DESKTOP_NOTIFICATION_RECENT_LIMIT {
        pushed.subrange(pushed.len() - DESKTOP_NOTIFICATION_RECENT_LIMIT, pushed.len() as int)
    } else {
        pushed
    }
}

/// Whether a request repeats one seen within its window.
pub open spec fn is_repeat(recent: Seq<(Seq<char>, u128)>, key: Option<Seq<char>>, dedupe_ms: Option<u64>, now: u128) -> bool {
    match dedupe_key_of(key) {
        None => false,
        Some(k) => seen(still_recent(recent, now, dedupe_window(dedupe_ms)), k),
    }
}

/// The record after a request.
pub open spec fn after_request(recent: Seq<(Seq<char>, u128)>, key: Option<Seq<char>>, dedupe_ms: Option<u64>, now: u128) -> Seq<(Seq<char>, u128)> {
    match dedupe_key_of(key) {
        None => recent,
        Some(k) => {
            let kept = still_recent(recent, now, dedupe_window(dedupe_ms));
            if seen(kept, k) {
                kept
            } else {
                recorded(kept, k, now)
            }
        },
    }
}

/// The notifications recently shown under a dedupe key, oldest first.
pub struct NotificationDedupe {
    recent: Vec<(String, u128)>,
}

impl NotificationDedupe {
    pub closed spec fn entries(&self) -> Seq<(Seq<char>, u128)> {
        self.recent@.map_values(|e: (String, u128)| (e.0@, e.1))
    }

    pub fn new() -> (r: Self)
        ensures
            r.entries().len() == 0,
    {
        NotificationDedupe { recent: Vec::new() }
    }

    /// Whether a request repeats one with the same key shown within its window. Entries older
    /// than the window are forgotten, and a new key is remembered, keeping the newest 128.
    pub fn is_duplicate(&mut self, dedupe_key: Option<&str>, dedupe_ms: Option<u64>, now: u128) -> (r: bool)
        ensures
            r == is_repeat(old(self).entries(), crate::text::opt_text(dedupe_key), dedupe_ms, now),
            final(self).entries() == after_request(old(self).entries(), crate::text::opt_text(dedupe_key), dedupe_ms, now),
    {
        let key = match dedupe_key {
            Some(k) => {
                let t = trim(k);
                if t.is_empty() {
                    return false;
                }
                owned(t)
            },
            None => return false,
        };
        assert(dedupe_key_of(crate::text::opt_text(dedupe_key)) == Some(key@));
        let requested = match dedupe_ms {
            Some(ms) => ms,
            None => DEFAULT_DEDUPE_MS,
        };
        let window: u128 = if requested < MIN_DEDUPE_MS {
            MIN_DEDUPE_MS as u128
        } else {
            requested as u128
        };
        let ghost f = |e: (Seq<char>, u128)| sat_sub_u128(now, e.1) <= window;
        let ghost before = self.entries();
        let mut kept: Vec<(String, u128)> = Vec::new();
        let mut i: usize = 0;
        while i < self.recent.len()
            invariant
                f == (|e: (Seq<char>, u128)| sat_sub_u128(now, e.1) <= window),
                before == self.entries(),
                i <= self.recent@.len(),
                kept@.map_values(|e: (String, u128)| (e.0@, e.1)) == before.subrange(0, i as int).filter(f),
            decreases self.recent@.len() - i,
        {
            let ghost next = before.subrange(0, i + 1);
            proof {
                reveal_with_fuel(Seq::filter, 1);
                assert(next.drop_last() =~= before.subrange(0, i as int));
                assert(next.last() == before[i as int]);
            }
            let seen_at = self.recent[i].1;
            let age = if now >= seen_at {
                now - seen_at
            } else {
                0
            };
            if age <= window {
                kept.push((self.recent[i].0.clone(), seen_at));
                proof {
                    assert(kept@.map_values(|e: (String, u128)| (e.0@, e.1)) =~= next.filter(f));
                }
            } else {
                proof {
                    assert(kept@.map_values(|e: (String, u128)| (e.0@, e.1)) =~= next.filter(f));
                }
            }
            i = i + 1;
        }
        proof {
            assert(before.subrange(0, before.len() as int) =~= before);
        }
        let ghost kept_view = kept@.map_values(|e: (String, u128)| (e.0@, e.1));
        proof {
            assert(window == dedupe_window(dedupe_ms));
            assert(f =~= (|e: (Seq<char>, u128)| sat_sub_u128(now, e.1) <= dedupe_window(dedupe_ms)));
            assert(kept_view == still_recent(before, now, dedupe_window(dedupe_ms)));
        }
        let mut j: usize = 0;
        while j < kept.len()
            invariant
                kept_view == kept@.map_values(|e: (String, u128)| (e.0@, e.1)),
                kept_view == still_recent(before, now, dedupe_window(dedupe_ms)),
                dedupe_key_of(crate::text::opt_text(dedupe_key)) == Some(key@),
                before == old(self).entries(),
                j <= kept@.len(),
                forall|m: int| 0 <= m < j ==> kept_view[m].0 != key@,
            decreases kept@.len() - j,
        {
            if kept[j].0 == key {
                self.recent = kept;
                proof {
                    assert(kept_view[j as int].0 == key@);
                }
                return true;
            }
            j = j + 1;
        }
        kept.push((key, now));
        let ghost pushed = kept@.map_values(|e: (String, u128)| (e.0@, e.1));
        proof {
            assert(pushed =~= kept_view.push((key@, now)));
        }
        if kept.len() > DESKTOP_NOTIFICATION_RECENT_LIMIT {
            let overflow = kept.len() - DESKTOP_NOTIFICATION_RECENT_LIMIT;
            let newest = kept.split_off(overflow);
            self.recent = newest;
            proof {
                assert(self.entries() =~= pushed.subrange(overflow as int, pushed.len() as int));
            }
        } else {
            self.recent = kept;
        }
        false
    }
}

/// The record never holds more than 128 notifications.
pub proof fn law_record_bounded(recent: Seq<(Seq<char>, u128)>, key: Option<Seq<char>>, dedupe_ms: Option<u64>, now: u128)
    requires
        recent.len() <= DESKTOP_NOTIFICATION_RECENT_LIMIT,
    ensures
        after_request(recent, key, dedupe_ms, now).len() <= DESKTOP_NOTIFICATION_RECENT_LIMIT,
{
    let f = |e: (Seq<char>, u128)| sat_sub_u128(now, e.1) <= dedupe_window(dedupe_ms);
    recent.lemma_filter_len(f);
}

/// Once a notification is shown under a key, the same key is suppressed until its window
/// has passed.
pub proof fn law_repeat_suppressed_within_window(
    recent: Seq<(Seq<char>, u128)>,
    key: Option<Seq<char>>,
    first_dedupe_ms: Option<u64>,
    first_at: u128,
    dedupe_ms: Option<u64>,
    now: u128,
)
    requires
        dedupe_key_of(key) is Some,
        !is_repeat(recent, key, first_dedupe_ms, first_at),
        first_at <= now,
        now - first_at <= dedupe_window(dedupe_ms),
    ensures
        is_repeat(after_request(recent, key, first_dedupe_ms, first_at), key, dedupe_ms, now),
{
    let k = dedupe_key_of(key)->0;
    let after = after_request(recent, key, first_dedupe_ms, first_at);
    let last = after.len() - 1;
    assert(after[last] == (k, first_at));
    let f = |e: (Seq<char>, u128)| sat_sub_u128(now, e.1) <= dedupe_window(dedupe_ms);
    after.lemma_filter_contains(f, last);
    let kept = still_recent(after, now, dedupe_window(dedupe_ms));
    assert(kept.contains((k, first_at)));
    let i = choose|i: int| 0 <= i < kept.len() && kept[i] == (k, first_at);
    assert(kept[i].0 == k);
}

/// The suppression window is the requested time, raised to one second and never shortened;
/// 15 seconds when none is asked for.
pub proof fn law_dedupe_window_is_requested_time(ms: u64)
    ensures
        dedupe_window(Some(ms)) >= ms,
        dedupe_window(Some(ms)) >= 1_000,
        dedupe_window(Some(ms)) == ms || dedupe_window(Some(ms)) == 1_000,
        dedupe_window(None) == 15_000,
{
}

/// A repeat of a shown key is suppressed for the whole time its request asks for, however
/// long: a request for `ms` milliseconds suppresses the key at any time up to `ms` (or one
/// second, if longer) after it was shown.
pub proof fn law_repeat_suppressed_for_requested_time(
    recent: Seq<(Seq<char>, u128)>,
    key: Option<Seq<char>>,
    first_dedupe_ms: Option<u64>,
    first_at: u128,
    ms: u64,
    now: u128,
)
    requires
        dedupe_key_of(key) is Some,
        !is_repeat(recent, key, first_dedupe_ms, first_at),
        first_at <= now,
        now - first_at <= ms || now - first_at <= 1_000,
    ensures
        is_repeat(after_request(recent, key, first_dedupe_ms, first_at), key, Some(ms), now),
{
    law_dedupe_window_is_requested_time(ms);
    law_repeat_suppressed_within_window(recent, key, first_dedupe_ms, first_at, Some(ms), now);
}

/// A request without a usable key is never suppressed and leaves the record as it is.
pub proof fn law_keyless_requests_pass(recent: Seq<(Seq<char>, u128)>, key: Option<Seq<char>>, dedupe_ms: Option<u64>, now: u128)
    requires
        dedupe_key_of(key) is None,
    ensures
        !is_repeat(recent, key, dedupe_ms, now),
        after_request(recent, key, dedupe_ms, now) == recent,
{
}

} // verus!
