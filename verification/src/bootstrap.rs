//! Start-up: how the shell's version compares with what the server requires, and what the
//! bootstrap page is told when the client configuration is or is not available.
use semver::Version;
use vstd::prelude::*;

use crate::links::{normalize_remote_url, url_allowed, DEFAULT_REMOTE_URL};
use crate::text::{chars_of, owned, trim, trim_ws};
use crate::update_rules::string_of;

verus! {

/// Whether `semver::Version::parse` accepts `text`.
pub uninterp spec fn semver_valid(text: Seq<char>) -> bool;

/// Whether the version parsed from `a` orders before the one parsed from `b` under
/// `semver::Version`'s `Ord` (major, minor, patch, pre-release, build metadata).
pub uninterp spec fn semver_lt(a: Seq<char>, b: Seq<char>) -> bool;

/// `Version::parse(text).is_ok()`.
#[verifier::external_body]
pub(crate) fn is_semver(text: &str) -> (r: bool)
    ensures
        r == semver_valid(text@),
{
    Version::parse(text).is_ok()
}

/// `Version::parse(a) < Version::parse(b)`, false when either does not parse.
#[verifier::external_body]
pub(crate) fn semver_precedes(a: &str, b: &str) -> (r: bool)
    ensures
        r == (semver_valid(a@) && semver_valid(b@) && semver_lt(a@, b@)),
{
    match (Version::parse(a), Version::parse(b)) {
        (Ok(x), Ok(y)) => x < y,
        _ => false,
    }
}

/// `s` without its leading `v` characters.
pub open spec fn strip_leading_v(s: Seq<char>) -> Seq<char>
    decreases s.len(),
{
    if s.len() > 0 && s[0] == 'v' {
        strip_leading_v(s.drop_first())
    } else {
        s
    }
}

/// The text a version is compared as: trimmed, without leading `v`, and `0.0.0` when it is
/// not a semantic version.
pub open spec fn version_key(value: Seq<char>) -> Seq<char> {
    let text = strip_leading_v(trim_ws(value));
    if semver_valid(text) {
        text
    } else {
        "0.0.0"@
    }
}

pub open spec fn precedes(a: Seq<char>, b: Seq<char>) -> bool {
    semver_valid(a) && semver_valid(b) && semver_lt(a, b)
}

/// The shell's state against the versions the server asks for.
pub open spec fn shell_update_state(current: Seq<char>, min_shell: Seq<char>, recommended_shell: Seq<char>) -> Seq<char> {
    if precedes(version_key(current), version_key(min_shell)) {
        "update_required"@
    } else if precedes(version_key(current), version_key(recommended_shell)) {
        "update_available"@
    } else {
        "ready"@
    }
}

/// A shell below the minimum version must update, whatever the recommended version; one at or
/// above the minimum but below the recommended version may update; any other is ready. A
/// version that is not a semantic version is compared as `0.0.0`.
pub proof fn law_shell_state_by_version(current: Seq<char>, min_shell: Seq<char>, recommended_shell: Seq<char>)
    ensures
        ({
            let c = version_key(current);
            let m = version_key(min_shell);
            let r = version_key(recommended_shell);
            let below_min = semver_valid(c) && semver_valid(m) && semver_lt(c, m);
            let below_rec = semver_valid(c) && semver_valid(r) && semver_lt(c, r);
            let state = shell_update_state(current, min_shell, recommended_shell);
            &&& (state == "update_required"@) == below_min
            &&& (state == "update_available"@) == (!below_min && below_rec)
            &&& (state == "ready"@) == (!below_min && !below_rec)
        }),
        semver_valid(version_key(current)) || version_key(current) == "0.0.0"@,
{
    reveal_strlit("update_required");
    reveal_strlit("update_available");
    reveal_strlit("ready");
    assert("update_required"@ != "update_available"@) by {
        assert("update_required"@[7] != "update_available"@[7]);
    }
    assert("update_required"@ != "ready"@) by {
        assert("update_required"@.len() != "ready"@.len());
    }
    assert("update_available"@ != "ready"@) by {
        assert("update_available"@.len() != "ready"@.len());
    }
}

/// The text that a version string is compared as.
pub fn parse_version(value: &str) -> (r: String)
    ensures
        r@ == version_key(value@),
{
    let chars = chars_of(trim(value));
    let mut start: usize = 0;
    proof {
        assert(chars@.subrange(0, chars@.len() as int) =~= chars@);
    }
    while start < chars.len() && chars[start] == 'v'
        invariant
            chars@ == trim_ws(value@),
            start <= chars@.len(),
            strip_leading_v(chars@) == strip_leading_v(chars@.subrange(start as int, chars@.len() as int)),
        decreases chars@.len() - start,
    {
        proof {
            let rest = chars@.subrange(start as int, chars@.len() as int);
            assert(rest.drop_first() =~= chars@.subrange(start + 1, chars@.len() as int));
        }
        start = start + 1;
    }
    let text = string_of(&chars, start, chars.len());
    if is_semver(text.as_str()) {
        text
    } else {
        owned("0.0.0")
    }
}

/// `update_required` below the minimum shell version, `update_available` below the
/// recommended one, `ready` otherwise.
pub fn update_state(current: &str, min_shell: &str, recommended_shell: &str) -> (r: String)
    ensures
        r@ == shell_update_state(current@, min_shell@, recommended_shell@),
{
    let current = parse_version(current);
    let min_shell = parse_version(min_shell);
    let recommended_shell = parse_version(recommended_shell);
    let below_minimum = semver_precedes(current.as_str(), min_shell.as_str());
    let below_recommended = semver_precedes(current.as_str(), recommended_shell.as_str());
    shell_state(below_minimum, below_recommended)
}

/// The state named by the two comparisons: below the minimum wins over below the
/// recommended version.
pub fn shell_state(below_minimum: bool, below_recommended: bool) -> (r: String)
    ensures
        r@ == if below_minimum {
            "update_required"@
        } else if below_recommended {
            "update_available"@
        } else {
            "ready"@
        },
{
    if below_minimum {
        owned("update_required")
    } else if below_recommended {
        owned("update_available")
    } else {
        owned("ready")
    }
}

/// The client configuration that the server publishes.
pub struct ClientConfig {
    pub remote_url: String,
    pub web_build_id: String,
    pub api_build_id: String,
    pub min_shell_version: String,
    pub recommended_shell_version: String,
}

/// What the bootstrap page is told.
pub struct BootstrapResult {
    pub state: String,
    pub remote_url: String,
    pub current_shell_version: String,
    pub min_shell_version: String,
    pub recommended_shell_version: String,
    pub web_build_id: String,
    pub api_build_id: String,
    pub message: Option<String>,
}

/// With the configuration: the state against its versions, and its remote URL when the shell
/// may navigate there.
pub fn bootstrap_from_config(current_shell_version: String, config: ClientConfig, development: bool) -> (r: BootstrapResult)
    ensures
        r.state@ == shell_update_state(
            current_shell_version@,
            config.min_shell_version@,
            config.recommended_shell_version@,
        ),
        r.remote_url@ == if url_allowed(trim_ws(config.remote_url@), development) {
            trim_ws(config.remote_url@)
        } else {
            DEFAULT_REMOTE_URL@
        },
        r.current_shell_version@ == current_shell_version@,
        r.min_shell_version@ == config.min_shell_version@,
        r.recommended_shell_version@ == config.recommended_shell_version@,
        r.web_build_id@ == config.web_build_id@,
        r.api_build_id@ == config.api_build_id@,
        r.message is None,
{
    let state = update_state(
        current_shell_version.as_str(),
        config.min_shell_version.as_str(),
        config.recommended_shell_version.as_str(),
    );
    BootstrapResult {
        state,
        remote_url: normalize_remote_url(config.remote_url.as_str(), development),
        current_shell_version,
        min_shell_version: config.min_shell_version,
        recommended_shell_version: config.recommended_shell_version,
        web_build_id: config.web_build_id,
        api_build_id: config.api_build_id,
        message: None,
    }
}

/// Without the configuration: open the default domain when it answers, else report the shell
/// offline; either way with the error that the configuration request gave.
pub fn bootstrap_without_config(current_shell_version: String, error: String, remote_available: bool) -> (r: BootstrapResult)
    ensures
        r.state@ == if remote_available {
            "ready"@
        } else {
            "offline"@
        },
        r.remote_url@ == DEFAULT_REMOTE_URL@,
        r.current_shell_version@ == current_shell_version@,
        r.min_shell_version@ == "0.1.0"@,
        r.recommended_shell_version@ == "0.1.0"@,
        r.web_build_id@ == "unknown"@,
        r.api_build_id@ == "unknown"@,
        r.message matches Some(m) && m@ == if remote_available {
            "Config endpoint unavailable, opening default domain: "@ + error@
        } else {
            error@
        },
{
    let message = if remote_available {
        let mut m = owned("Config endpoint unavailable, opening default domain: ");
        m.append(error.as_str());
        m
    } else {
        error
    };
    BootstrapResult {
        state: if remote_available {
            owned("ready")
        } else {
            owned("offline")
        },
        remote_url: owned(DEFAULT_REMOTE_URL),
        current_shell_version,
        min_shell_version: owned("0.1.0"),
        recommended_shell_version: owned("0.1.0"),
        web_build_id: owned("unknown"),
        api_build_id: owned("unknown"),
        message: Some(message),
    }
}

/// A response counts as the remote being up when its status is a success or a redirection.
pub fn status_counts_as_available(status: u16) -> (r: bool)
    ensures
        r == (200 <= status <= 399),
{
    200 <= status && status <= 399
}

} // verus!
