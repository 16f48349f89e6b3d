//! Rules of the native updater that do not depend on the coordinator's state: safety
//! blockers, check scheduling, channel selection, the `stem` extension of the update feed and the
//! tokens that may reach the logs.
use vstd::prelude::*;
use vstd::utf8::encode_utf8;

use crate::text::{
    ascii_lower, chars_of, is_ascii_alphanumeric, is_ascii_alphanumeric_char, owned, push_char,
    strs, to_ascii_lower, trim, trim_ws,
};

verus! {

pub const CHECK_MIN_INTERVAL_MS: u64 = 60_000;

pub const CHECK_FOCUS_TTL_MS: u64 = 6 * 60 * 60 * 1_000;

pub const CHECK_FALLBACK_INTERVAL_MS: u64 = 15 * 60 * 1_000;

pub const AUTO_INSTALL_IDLE_SECONDS: u64 = 10 * 60;

pub const BOOT_FAILURE_WINDOW_MS: u64 = 10 * 60 * 1_000;

pub const MAX_BOOT_FAILURES: u8 = 2;

pub const HEARTBEAT_TIMEOUT_MS: u64 = 30_000;

pub const TELEMETRY_MAX_DURATION_MS: u64 = 604_800_000;

/// Delay before the next check after the `n`-th consecutive failure (`n` counted from 0).
pub open spec fn retry_delay_ms(index: int) -> u64 {
    if index <= 0 {
        60_000
    } else if index == 1 {
        300_000
    } else if index == 2 {
        1_800_000
    } else {
        21_600_000
    }
}

pub fn check_retry_ms(index: usize) -> (r: u64)
    ensures
        r == retry_delay_ms(index as int),
{
    if index == 0 {
        60_000
    } else if index == 1 {
        5 * 60_000
    } else if index == 2 {
        30 * 60_000
    } else {
        6 * 60 * 60 * 1_000
    }
}

/// The blockers that the web client may report, in sorted order.
pub open spec fn safety_blockers() -> Seq<Seq<char>> {
    seq![
        "attachment_editor"@,
        "cache_migration"@,
        "call"@,
        "draft"@,
        "outbox"@,
        "recording"@,
        "transfer"@,
    ]
}

/// How a reported blocker is compared with the allowlist: trimmed and ASCII-lowercased.
pub open spec fn normalized_blocker(value: Seq<char>) -> Seq<char> {
    ascii_lower(trim_ws(value))
}

/// Whether some reported value names the allowlisted blocker `b`.
pub open spec fn blocker_reported(reported: Seq<Seq<char>>, b: Seq<char>) -> bool {
    exists|i: int| 0 <= i < reported.len() && normalized_blocker(#[trigger] reported[i]) == b
}

/// The allowlisted blockers that were reported, each once, in allowlist order.
pub open spec fn normalized_blockers(reported: Seq<Seq<char>>) -> Seq<Seq<char>> {
    safety_blockers().filter(|b: Seq<char>| blocker_reported(reported, b))
}

fn safety_blocker(index: usize) -> (r: String)
    requires
        index < 7,
    ensures
        r@ == safety_blockers()[index as int],
{
    if index == 0 {
        owned("attachment_editor")
    } else if index == 1 {
        owned("cache_migration")
    } else if index == 2 {
        owned("call")
    } else if index == 3 {
        owned("draft")
    } else if index == 4 {
        owned("outbox")
    } else if index == 5 {
        owned("recording")
    } else {
        owned("transfer")
    }
}

/// `value.trim().to_ascii_lowercase()`.
pub fn normalize_blocker(value: &str) -> (r: String)
    ensures
        r@ == normalized_blocker(value@),
{
    let trimmed = chars_of(trim(value));
    let mut out = String::new();
    let mut i: usize = 0;
    while i < trimmed.len()
        invariant
            trimmed@ == trim_ws(value@),
            i <= trimmed@.len(),
            out@ == ascii_lower(trimmed@.subrange(0, i as int)),
        decreases trimmed@.len() - i,
    {
        push_char(&mut out, to_ascii_lower(trimmed[i]));
        proof {
            assert(ascii_lower(trimmed@.subrange(0, i + 1)) =~= ascii_lower(
                trimmed@.subrange(0, i as int),
            ).push(crate::text::ascii_lower_char(trimmed@[i as int])));
        }
        i = i + 1;
    }
    proof {
        assert(trimmed@.subrange(0, trimmed@.len() as int) =~= trimmed@);
    }
    out
}

/// Keeps the reported blockers that are on the allowlist, trimmed and lowercased, sorted and
/// without repetition.
pub fn normalize_blockers(blockers: Vec<String>) -> (r: Vec<String>)
    ensures
        strs(r@) == normalized_blockers(strs(blockers@)),
{
    let ghost reported = strs(blockers@);
    let mut normalized: Vec<String> = Vec::new();
    let mut i: usize = 0;
    while i < blockers.len()
        invariant
            reported == strs(blockers@),
            i <= blockers@.len(),
            normalized@.len() == i,
            forall|j: int| 0 <= j < i ==> normalized@[j]@ == normalized_blocker(reported[j]),
        decreases blockers@.len() - i,
    {
        let value = normalize_blocker(blockers[i].as_str());
        normalized.push(value);
        i = i + 1;
    }
    let mut out: Vec<String> = Vec::new();
    let mut k: usize = 0;
    while k < 7
        invariant
            reported == strs(blockers@),
            normalized@.len() == reported.len(),
            forall|j: int|
                0 <= j < reported.len() ==> normalized@[j]@ == normalized_blocker(reported[j]),
            k <= 7,
            strs(out@) == safety_blockers().subrange(0, k as int).filter(
                |b: Seq<char>| blocker_reported(reported, b),
            ),
        decreases 7 - k,
    {
        let candidate = safety_blocker(k);
        let ghost b = candidate@;
        let present = crate::text::contains_string(&normalized, &candidate);
        proof {
            assert(safety_blockers().subrange(0, k + 1).drop_last() =~= safety_blockers().subrange(
                0,
                k as int,
            ));
            if present {
                let j = choose|j: int|
                    0 <= j < strs(normalized@).len() && strs(normalized@)[j] == b;
                assert(normalized_blocker(reported[j]) == b);
                assert(blocker_reported(reported, b));
            } else {
                assert forall|j: int| 0 <= j < reported.len() implies normalized_blocker(
                    #[trigger] reported[j],
                ) != b by {
                    assert(strs(normalized@)[j] == normalized@[j]@);
                }
            }
        }
        if present {
            out.push(candidate);
        }
        proof {
            let f = |b: Seq<char>| blocker_reported(reported, b);
            let next = safety_blockers().subrange(0, k + 1);
            reveal_with_fuel(Seq::filter, 1);
            assert(next.last() == b);
            assert(next.drop_last() =~= safety_blockers().subrange(0, k as int));
            assert(next.filter(f) == if f(b) {
                next.drop_last().filter(f).push(b)
            } else {
                next.drop_last().filter(f)
            });
            assert(strs(out@) =~= next.filter(f));
        }
        k = k + 1;
    }
    proof {
        assert(safety_blockers().subrange(0, 7) =~= safety_blockers());
    }
    out
}

/// The seed that an install id spreads the fallback interval with: a base-31 hash of its
/// UTF-8 bytes, wrapping at 64 bits.
pub open spec fn install_seed(bytes: Seq<u8>) -> u64
    decreases bytes.len(),
{
    if bytes.len() == 0 {
        0
    } else {
        ((install_seed(bytes.drop_last()) as int * 31 + bytes.last() as int) % 0x1_0000_0000_0000_0000)
            as u64
    }
}

/// Background checks run every 15 minutes, spread by ±3 minutes per install.
pub open spec fn fallback_interval(install_id: Seq<char>) -> u64 {
    let range: int = CHECK_FALLBACK_INTERVAL_MS as int / 5;
    (CHECK_FALLBACK_INTERVAL_MS - range + install_seed(encode_utf8(install_id)) as int % (range
        * 2 + 1)) as u64
}

pub fn fallback_interval_ms(install_id: &str) -> (r: u64)
    ensures
        r == fallback_interval(install_id@),
        CHECK_FALLBACK_INTERVAL_MS * 4 / 5 <= r <= CHECK_FALLBACK_INTERVAL_MS * 6 / 5,
{
    let bytes = install_id.as_bytes();
    let mut seed: u64 = 0;
    let mut i: usize = 0;
    while i < bytes.len()
        invariant
            bytes@ == encode_utf8(install_id@),
            i <= bytes@.len(),
            seed == install_seed(bytes@.subrange(0, i as int)),
        decreases bytes@.len() - i,
    {
        let next: u128 = (seed as u128 * 31 + bytes[i] as u128) % 0x1_0000_0000_0000_0000;
        proof {
            assert(bytes@.subrange(0, i + 1).drop_last() =~= bytes@.subrange(0, i as int));
        }
        seed = next as u64;
        i = i + 1;
    }
    proof {
        assert(bytes@.subrange(0, bytes@.len() as int) =~= bytes@);
    }
    let range = CHECK_FALLBACK_INTERVAL_MS / 5;
    CHECK_FALLBACK_INTERVAL_MS - range + seed % (range * 2 + 1)
}

/// A forced background check is skipped within a minute of the previous one; a check that
/// the user asked for never is.
pub fn check_rate_limited(last_check_at_ms: u64, now: u64, user_initiated: bool) -> (r: bool)
    ensures
        r == (!user_initiated && (if now >= last_check_at_ms {
            now - last_check_at_ms
        } else {
            0
        }) < CHECK_MIN_INTERVAL_MS),
{
    !user_initiated && now.saturating_sub(last_check_at_ms) < CHECK_MIN_INTERVAL_MS
}

/// The channel that a `--update-channel=` argument asks for.
pub open spec fn channel_argument(argument: Seq<char>) -> Option<Seq<char>> {
    let prefix = "--update-channel="@;
    if argument.len() >= prefix.len() && argument.subrange(0, prefix.len() as int) == prefix {
        let channel = trim_ws(argument.subrange(prefix.len() as int, argument.len() as int));
        if channel == "stable"@ || channel == "canary"@ {
            Some(channel)
        } else {
            None
        }
    } else {
        None
    }
}

/// The first command-line argument that selects a valid update channel.
pub open spec fn requested_channel_of(args: Seq<Seq<char>>) -> Option<Seq<char>>
    decreases args.len(),
{
    if args.len() == 0 {
        None
    } else if channel_argument(args[0]) is Some {
        channel_argument(args[0])
    } else {
        requested_channel_of(args.drop_first())
    }
}

/// Only `stable` and `canary` are ever asked for on the command line, and the first argument
/// `--update-channel=canary` (or `=stable`) selects that channel whatever follows it.
pub proof fn law_channel_argument_selects(args: Seq<Seq<char>>, rest: Seq<Seq<char>>)
    ensures
        requested_channel_of(args) is None || requested_channel_of(args) == Some("stable"@)
            || requested_channel_of(args) == Some("canary"@),
        requested_channel_of(seq!["--update-channel=canary"@] + rest) == Some("canary"@),
        requested_channel_of(seq!["--update-channel=stable"@] + rest) == Some("stable"@),
    decreases args.len(),
{
    if args.len() > 0 && channel_argument(args[0]) is None {
        law_channel_argument_selects(args.drop_first(), rest);
    }
    reveal_strlit("--update-channel=");
    reveal_strlit("--update-channel=canary");
    reveal_strlit("--update-channel=stable");
    reveal_strlit("canary");
    reveal_strlit("stable");
    let prefix = "--update-channel="@;
    let canary = "canary"@;
    let stable = "stable"@;
    assert(!crate::text::is_unicode_whitespace(canary[0]));
    assert(!crate::text::is_unicode_whitespace(canary.last()));
    assert(!crate::text::is_unicode_whitespace(stable[0]));
    assert(!crate::text::is_unicode_whitespace(stable.last()));
    assert(crate::text::trim_start_ws(canary) == canary);
    assert(crate::text::trim_end_ws(canary) == canary);
    assert(crate::text::trim_start_ws(stable) == stable);
    assert(crate::text::trim_end_ws(stable) == stable);
    let a = "--update-channel=canary"@;
    let b = "--update-channel=stable"@;
    assert(a.subrange(0, prefix.len() as int) =~= prefix);
    assert(a.subrange(prefix.len() as int, a.len() as int) =~= canary);
    assert(b.subrange(0, prefix.len() as int) =~= prefix);
    assert(b.subrange(prefix.len() as int, b.len() as int) =~= stable);
    assert((seq![a] + rest)[0] == a);
    assert((seq![b] + rest)[0] == b);
}

fn starts_with_chars(s: &Vec<char>, prefix: &Vec<char>) -> (r: bool)
    ensures
        r == (s@.len() >= prefix@.len() && s@.subrange(0, prefix@.len() as int) == prefix@),
{
    if s.len() < prefix.len() {
        return false;
    }
    let mut i: usize = 0;
    while i < prefix.len()
        invariant
            prefix@.len() <= s@.len(),
            i <= prefix@.len(),
            forall|j: int| 0 <= j < i ==> s@[j] == prefix@[j],
        decreases prefix@.len() - i,
    {
        if s[i] != prefix[i] {
            proof {
                assert(s@.subrange(0, prefix@.len() as int)[i as int] != prefix@[i as int]);
            }
            return false;
        }
        i = i + 1;
    }
    proof {
        assert(s@.subrange(0, prefix@.len() as int) =~= prefix@);
    }
    true
}

/// Builds a `String` from a run of characters.
pub fn string_of(chars: &Vec<char>, from: usize, to: usize) -> (r: String)
    requires
        from <= to <= chars@.len(),
    ensures
        r@ == chars@.subrange(from as int, to as int),
{
    let mut out = String::new();
    let mut i = from;
    while i < to
        invariant
            from <= i <= to <= chars@.len(),
            out@ == chars@.subrange(from as int, i as int),
        decreases to - i,
    {
        push_char(&mut out, chars[i]);
        proof {
            assert(chars@.subrange(from as int, i + 1) =~= chars@.subrange(from as int, i as int).push(
                chars@[i as int],
            ));
        }
        i = i + 1;
    }
    out
}

fn channel_from_argument(argument: &str) -> (r: Option<String>)
    ensures
        match r {
            Some(c) => channel_argument(argument@) == Some(c@),
            None => channel_argument(argument@) is None,
        },
{
    let chars = chars_of(argument);
    let prefix = chars_of("--update-channel=");
    if !starts_with_chars(&chars, &prefix) {
        return None;
    }
    let rest = string_of(&chars, prefix.len(), chars.len());
    let channel = owned(trim(rest.as_str()));
    let stable = owned("stable");
    let canary = owned("canary");
    if channel == stable || channel == canary {
        Some(channel)
    } else {
        None
    }
}

/// Finds the update channel that the command line asks for.
pub fn requested_channel(args: &Vec<String>) -> (r: Option<String>)
    ensures
        crate::text::opt_str(r) == requested_channel_of(strs(args@)),
{
    let mut i: usize = 0;
    proof {
        assert(strs(args@).subrange(0, args@.len() as int) =~= strs(args@));
    }
    while i < args.len()
        invariant
            i <= args@.len(),
            requested_channel_of(strs(args@)) == requested_channel_of(strs(args@).subrange(
                i as int,
                args@.len() as int,
            )),
        decreases args@.len() - i,
    {
        let found = channel_from_argument(args[i].as_str());
        proof {
            let rest = strs(args@).subrange(i as int, args@.len() as int);
            assert(rest[0] == args@[i as int]@);
            assert(rest.drop_first() =~= strs(args@).subrange(i + 1, args@.len() as int));
        }
        if found.is_some() {
            return found;
        }
        i = i + 1;
    }
    None
}

/// Whether `c` may appear in a logged token.
pub open spec fn token_char(c: char) -> bool {
    is_ascii_alphanumeric_char(c) || c == '.' || c == '-' || c == '_'
}

/// Whether `c` may appear in a logged route.
pub open spec fn route_char(c: char) -> bool {
    is_ascii_alphanumeric_char(c) || c == '/' || c == '-' || c == '_'
}

/// At most `limit` characters of `s` that `keep` accepts, in order.
pub open spec fn filter_take(s: Seq<char>, keep: spec_fn(char) -> bool, limit: nat) -> Seq<char>
    decreases s.len(),
{
    if s.len() == 0 || limit == 0 {
        Seq::empty()
    } else if keep(s[0]) {
        seq![s[0]] + filter_take(s.drop_first(), keep, (limit - 1) as nat)
    } else {
        filter_take(s.drop_first(), keep, limit)
    }
}

proof fn lemma_filter_take_step(s: Seq<char>, keep: spec_fn(char) -> bool, limit: nat, i: int)
    requires
        0 <= i < s.len(),
    ensures
        filter_take(s.subrange(i, s.len() as int), keep, limit) == if limit == 0 {
            Seq::<char>::empty()
        } else if keep(s[i]) {
            seq![s[i]] + filter_take(s.subrange(i + 1, s.len() as int), keep, (limit - 1) as nat)
        } else {
            filter_take(s.subrange(i + 1, s.len() as int), keep, limit)
        },
{
    assert(s.subrange(i, s.len() as int).drop_first() =~= s.subrange(i + 1, s.len() as int));
}

/// Keeps the characters that may reach a log as a token, at most 80 of them.
pub fn safe_token(value: &str) -> (r: String)
    ensures
        r@ == filter_take(value@, |c: char| token_char(c), 80),
{
    let chars = chars_of(value);
    let ghost keep = |c: char| token_char(c);
    let mut out = String::new();
    let mut taken: usize = 0;
    let mut i: usize = 0;
    proof {
        assert(chars@.subrange(0, chars@.len() as int) =~= value@);
        assert(out@ + value@ =~= value@);
    }
    while i < chars.len() && taken < 80
        invariant
            keep == (|c: char| token_char(c)),
            chars@ == value@,
            i <= chars@.len(),
            taken <= 80,
            out@.len() == taken,
            out@ + filter_take(chars@.subrange(i as int, chars@.len() as int), keep, (80 - taken) as nat)
                == filter_take(value@, keep, 80),
        decreases chars@.len() - i,
    {
        let c = chars[i];
        let ghost old_out = out@;
        let ghost limit = (80 - taken) as nat;
        let ghost rest_i = chars@.subrange(i as int, chars@.len() as int);
        let ghost rest_next = chars@.subrange(i + 1, chars@.len() as int);
        proof {
            lemma_filter_take_step(chars@, keep, limit, i as int);
        }
        if is_ascii_alphanumeric(c) || c == '.' || c == '-' || c == '_' {
            proof {
                assert(keep(c));
                assert(filter_take(rest_i, keep, limit) == seq![c] + filter_take(
                    rest_next,
                    keep,
                    (limit - 1) as nat,
                ));
            }
            push_char(&mut out, c);
            taken = taken + 1;
            proof {
                assert(out@ + filter_take(rest_next, keep, (80 - taken) as nat) =~= old_out
                    + filter_take(rest_i, keep, limit));
            }
        } else {
            proof {
                assert(!keep(c));
            }
        }
        i = i + 1;
    }
    proof {
        assert(value@.subrange(0, value@.len() as int) =~= value@);
        if i == chars@.len() {
            assert(chars@.subrange(i as int, chars@.len() as int) =~= Seq::<char>::empty());
        }
        assert(out@ + Seq::<char>::empty() =~= out@);
    }
    out
}

/// The part of a route before its first `?`.
pub open spec fn route_path(value: Seq<char>) -> Seq<char>
    decreases value.len(),
{
    if value.len() == 0 || value[0] == '?' {
        Seq::empty()
    } else {
        seq![value[0]] + route_path(value.drop_first())
    }
}

/// Keeps, of the route before any query, the characters that may reach a log, at most 120.
pub fn safe_route(value: &str) -> (r: String)
    ensures
        r@ == filter_take(route_path(value@), |c: char| route_char(c), 120),
{
    let chars = chars_of(value);
    let ghost keep = |c: char| route_char(c);
    let mut end: usize = 0;
    proof {
        assert(chars@.subrange(0, 0) + chars@.subrange(0, chars@.len() as int) =~= value@);
    }
    while end < chars.len() && chars[end] != '?'
        invariant
            chars@ == value@,
            end <= chars@.len(),
            forall|j: int| 0 <= j < end ==> chars@[j] != '?',
            route_path(value@) == chars@.subrange(0, end as int) + route_path(
                chars@.subrange(end as int, chars@.len() as int),
            ),
        decreases chars@.len() - end,
    {
        proof {
            let rest = chars@.subrange(end as int, chars@.len() as int);
            assert(rest.drop_first() =~= chars@.subrange(end + 1, chars@.len() as int));
            assert(chars@.subrange(0, end + 1) =~= chars@.subrange(0, end as int).push(chars@[end as int]));
            assert(chars@.subrange(0, end as int) + (seq![chars@[end as int]] + route_path(rest.drop_first()))
                =~= chars@.subrange(0, end + 1) + route_path(rest.drop_first()));
        }
        end = end + 1;
    }
    proof {
        let rest = chars@.subrange(end as int, chars@.len() as int);
        assert(route_path(rest) =~= Seq::<char>::empty());
        assert(chars@.subrange(0, end as int) + Seq::<char>::empty() =~= chars@.subrange(0, end as int));
    }
    let ghost path = chars@.subrange(0, end as int);
    let mut out = String::new();
    let mut taken: usize = 0;
    let mut i: usize = 0;
    proof {
        assert(path.subrange(0, end as int) =~= path);
        assert(out@ + filter_take(path, keep, 120) =~= filter_take(path, keep, 120));
    }
    while i < end && taken < 120
        invariant
            keep == (|c: char| route_char(c)),
            chars@ == value@,
            end <= chars@.len(),
            route_path(value@) == chars@.subrange(0, end as int),
            i <= end,
            taken <= 120,
            out@.len() == taken,
            out@ + filter_take(chars@.subrange(0, end as int).subrange(i as int, end as int), keep, (120 - taken) as nat)
                == filter_take(route_path(value@), keep, 120),
        decreases end - i,
    {
        let c = chars[i];
        let ghost prefix = chars@.subrange(0, end as int);
        let ghost old_out = out@;
        let ghost limit = (120 - taken) as nat;
        let ghost rest_i = prefix.subrange(i as int, end as int);
        let ghost rest_next = prefix.subrange(i + 1, end as int);
        proof {
            lemma_filter_take_step(prefix, keep, limit, i as int);
            assert(prefix[i as int] == c);
        }
        if is_ascii_alphanumeric(c) || c == '/' || c == '-' || c == '_' {
            proof {
                assert(keep(c));
                assert(filter_take(rest_i, keep, limit) == seq![c] + filter_take(
                    rest_next,
                    keep,
                    (limit - 1) as nat,
                ));
            }
            push_char(&mut out, c);
            taken = taken + 1;
            proof {
                assert(out@ + filter_take(rest_next, keep, (120 - taken) as nat) =~= old_out
                    + filter_take(rest_i, keep, limit));
            }
        } else {
            proof {
                assert(!keep(c));
            }
        }
        i = i + 1;
    }
    proof {
        let prefix = chars@.subrange(0, end as int);
        assert(prefix.subrange(0, end as int) =~= prefix);
        if i == end {
            assert(prefix.subrange(i as int, end as int) =~= Seq::<char>::empty());
        }
        assert(out@ + Seq::<char>::empty() =~= out@);
    }
    out
}

/// A scalar member of a JSON object, as the update logic reads it.
pub enum JsonScalar {
    Text(String),
    /// A number that fits in a `u64`.
    Unsigned(u64),
    Boolean(bool),
    /// `null`, arrays, objects and numbers that are negative or fractional.
    Other,
}

/// The members of a JSON object, in order, with their scalar values.
pub struct JsonFields {
    pub entries: Vec<(String, JsonScalar)>,
}

/// The value of the first member named `key`.
pub open spec fn json_member(entries: Seq<(String, JsonScalar)>, key: Seq<char>) -> Option<
    JsonScalar,
>
    decreases entries.len(),
{
    if entries.len() == 0 {
        None
    } else if entries[0].0@ == key {
        Some(entries[0].1)
    } else {
        json_member(entries.drop_first(), key)
    }
}

pub open spec fn json_text(stem: Option<JsonFields>, key: Seq<char>) -> Option<Seq<char>> {
    match stem {
        Some(fields) => match json_member(fields.entries@, key) {
            Some(JsonScalar::Text(s)) => Some(s@),
            _ => None,
        },
        None => None,
    }
}

pub open spec fn json_unsigned(stem: Option<JsonFields>, key: Seq<char>) -> Option<u64> {
    match stem {
        Some(fields) => match json_member(fields.entries@, key) {
            Some(JsonScalar::Unsigned(n)) => Some(n),
            _ => None,
        },
        None => None,
    }
}

pub open spec fn json_bool(stem: Option<JsonFields>, key: Seq<char>) -> Option<bool> {
    match stem {
        Some(fields) => match json_member(fields.entries@, key) {
            Some(JsonScalar::Boolean(b)) => Some(b),
            _ => None,
        },
        None => None,
    }
}

/// What the `stem` extension of an update manifest asks of the shell.
pub struct UpdatePolicy {
    pub release_id: Option<String>,
    pub channel: Option<String>,
    pub cohort: Option<u64>,
    pub mandatory_after: Option<String>,
    pub mandatory: bool,
}

enum Found {
    Text(String),
    Unsigned(u64),
    Boolean(bool),
    Nothing,
}

fn find_member(fields: &JsonFields, key: &str) -> (r: Found)
    ensures
        match json_member(fields.entries@, key@) {
            Some(JsonScalar::Text(s)) => r matches Found::Text(t) && t@ == s@,
            Some(JsonScalar::Unsigned(n)) => r == Found::Unsigned(n),
            Some(JsonScalar::Boolean(b)) => r == Found::Boolean(b),
            _ => r is Nothing,
        },
{
    let wanted = owned(key);
    let mut i: usize = 0;
    proof {
        assert(fields.entries@.subrange(0, fields.entries@.len() as int) =~= fields.entries@);
    }
    while i < fields.entries.len()
        invariant
            wanted@ == key@,
            i <= fields.entries@.len(),
            json_member(fields.entries@, key@) == json_member(
                fields.entries@.subrange(i as int, fields.entries@.len() as int),
                key@,
            ),
        decreases fields.entries@.len() - i,
    {
        let entry = &fields.entries[i];
        proof {
            let rest = fields.entries@.subrange(i as int, fields.entries@.len() as int);
            assert(rest[0] == fields.entries@[i as int]);
            assert(rest.drop_first() =~= fields.entries@.subrange(i + 1, fields.entries@.len() as int));
        }
        if entry.0 == wanted {
            return match &entry.1 {
                JsonScalar::Text(s) => Found::Text(s.clone()),
                JsonScalar::Unsigned(n) => Found::Unsigned(*n),
                JsonScalar::Boolean(b) => Found::Boolean(*b),
                JsonScalar::Other => Found::Nothing,
            };
        }
        i = i + 1;
    }
    Found::Nothing
}

impl UpdatePolicy {
    /// Reads `release_id`, `channel`, `cohort`, `mandatory_deadline` and `mandatory` from the
    /// `stem` object of an update manifest; a member of the wrong type counts as absent, and
    /// `mandatory` defaults to `false`.
    pub fn from_json(stem: &Option<JsonFields>) -> (r: UpdatePolicy)
        ensures
            crate::text::opt_str(r.release_id) == json_text(*stem, "release_id"@),
            crate::text::opt_str(r.channel) == json_text(*stem, "channel"@),
            r.cohort == json_unsigned(*stem, "cohort"@),
            crate::text::opt_str(r.mandatory_after) == json_text(*stem, "mandatory_deadline"@),
            r.mandatory == (json_bool(*stem, "mandatory"@) == Some(true)),
    {
        match stem {
            None => UpdatePolicy {
                release_id: None,
                channel: None,
                cohort: None,
                mandatory_after: None,
                mandatory: false,
            },
            Some(fields) => {
                let release_id = match find_member(fields, "release_id") {
                    Found::Text(s) => Some(s),
                    _ => None,
                };
                let channel = match find_member(fields, "channel") {
                    Found::Text(s) => Some(s),
                    _ => None,
                };
                let cohort = match find_member(fields, "cohort") {
                    Found::Unsigned(n) => Some(n),
                    _ => None,
                };
                let mandatory_after = match find_member(fields, "mandatory_deadline") {
                    Found::Text(s) => Some(s),
                    _ => None,
                };
                let mandatory = match find_member(fields, "mandatory") {
                    Found::Boolean(b) => b,
                    _ => false,
                };
                UpdatePolicy { release_id, channel, cohort, mandatory_after, mandatory }
            },
        }
    }
}

} // verus!
