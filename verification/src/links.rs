//! Which URLs the shell opens or navigates to, and how `stem://` deep links map to pages of
//! the messenger. URL parsing and serialization are the `url` crate's.
use url::Url;
use vstd::prelude::*;

use crate::text::{chars_of, opt_str, owned};
use crate::update_rules::string_of;

verus! {

pub const DEFAULT_REMOTE_URL: &'static str = "https://chat-stem.ru/messages";

pub const REMOTE_HOST: &'static str = "chat-stem.ru";

/// The parts of a parsed URL that the shell reads.
pub struct UrlParts {
    pub scheme: String,
    pub host: Option<String>,
    pub port: Option<u16>,
    pub path: String,
    pub query: Option<String>,
    /// The whole URL as the parser writes it back.
    pub serialization: String,
}

pub struct UrlPartsView {
    pub scheme: Seq<char>,
    pub host: Option<Seq<char>>,
    pub port: Option<u16>,
    pub path: Seq<char>,
    pub query: Option<Seq<char>>,
    pub serialization: Seq<char>,
}

impl View for UrlParts {
    type V = UrlPartsView;

    open spec fn view(&self) -> UrlPartsView {
        UrlPartsView {
            scheme: self.scheme@,
            host: opt_str(self.host),
            port: self.port,
            path: self.path@,
            query: opt_str(self.query),
            serialization: self.serialization@,
        }
    }
}

/// What `url::Url::parse` makes of `input`, read through `scheme`, `host_str`, `port`,
/// `path`, `query` and `as_str`; `None` when it rejects `input`.
pub uninterp spec fn url_parts(input: Seq<char>) -> Option<UrlPartsView>;

/// `Url::parse(input)` and the parts of the result.
#[verifier::external_body]
pub(crate) fn parse_url(input: &str) -> (r: Option<UrlParts>)
    ensures
        match r {
            Some(parts) => url_parts(input@) == Some(parts@),
            None => url_parts(input@) is None,
        },
{
    match Url::parse(input) {
        Ok(url) => Some(UrlParts {
            scheme: url.scheme().to_string(),
            host: url.host_str().map(|host| host.to_string()),
            port: url.port(),
            path: url.path().to_string(),
            query: url.query().map(|query| query.to_string()),
            serialization: url.as_str().to_string(),
        }),
        Err(_) => None,
    }
}

/// The serialization of the URL that `Url::parse(url)` gives after `set_path(path)`; `None`
/// when `url` does not parse.
pub uninterp spec fn url_with_path(url: Seq<char>, path: Seq<char>) -> Option<Seq<char>>;

/// `Url::parse(url)`, `set_path(path)`, `to_string()`. The `url` crate keeps offsets into a
/// URL's text as `u32` and panics when an edit makes the text longer than `u32::MAX` bytes, so
/// the call is made only where the parsed URL and the encoded path fit together.
#[verifier::external_body]
pub(crate) fn set_url_path(url: &str, path: &str) -> (r: Option<String>)
    requires
        path_fits(url@, path@),
    ensures
        opt_str(r) == url_with_path(url@, path@),
{
    match Url::parse(url) {
        Ok(mut parsed) => {
            parsed.set_path(path);
            Some(parsed.to_string())
        },
        Err(_) => None,
    }
}

/// The serialization of the URL that `Url::parse(url)` gives after `set_query(query)`;
/// `None` when `url` does not parse.
pub uninterp spec fn url_with_query(url: Seq<char>, query: Option<Seq<char>>) -> Option<Seq<char>>;

/// `Url::parse(url)`, `set_query(query)`, `to_string()`, made only where the result fits in
/// the `u32` offsets of the `url` crate (which panics otherwise).
#[verifier::external_body]
pub(crate) fn set_url_query(url: &str, query: Option<&str>) -> (r: Option<String>)
    requires
        query_fits(
            url@,
            match query {
                Some(q) => Some(q@),
                None => None,
            },
        ),
    ensures
        opt_str(r) == url_with_query(
            url@,
            match query {
                Some(q) => Some(q@),
                None => None,
            },
        ),
{
    match Url::parse(url) {
        Ok(mut parsed) => {
            parsed.set_query(query);
            Some(parsed.to_string())
        },
        Err(_) => None,
    }
}

/// Bytes of the UTF-8 text of `s`, as `str::len` gives them.
pub open spec fn utf8_len(s: Seq<char>) -> int {
    (vstd::utf8::encode_utf8(s).len() as usize) as int
}

/// Whether `url`, as parsed and written back, with its path set to `path` stays within
/// `u32::MAX` bytes: each byte of the path takes at most three when percent-encoded, and the
/// parser adds at most three more (a leading `/`, or `/.` before a path that starts with
/// `//`). A `url` that does not parse is refused without an edit.
pub open spec fn path_fits(url: Seq<char>, path: Seq<char>) -> bool {
    match url_parts(url) {
        Some(parts) => utf8_len(parts.serialization) + 3 * utf8_len(path) + 4 <= u32::MAX,
        None => true,
    }
}

/// Whether `url`, as parsed and written back, with its query set to `query` stays within
/// `u32::MAX` bytes: a `?` and at most three bytes for each byte of the query.
pub open spec fn query_fits(url: Seq<char>, query: Option<Seq<char>>) -> bool {
    match url_parts(url) {
        Some(parts) => utf8_len(parts.serialization) + 3 * match query {
            Some(q) => utf8_len(q),
            None => 0,
        } + 4 <= u32::MAX,
        None => true,
    }
}

/// Whether `url`, as parsed and written back, with the pair `key=value` appended to its
/// query stays within `u32::MAX` bytes: `?`, `&` and `=`, and at most three bytes for each
/// byte of the key and the value.
pub open spec fn pair_fits(url: Seq<char>, key: Seq<char>, value: Seq<char>) -> bool {
    match url_parts(url) {
        Some(parts) => utf8_len(parts.serialization) + 3 * (utf8_len(key) + utf8_len(value)) + 4
            <= u32::MAX,
        None => true,
    }
}

/// `url` with its path set to `path`, when that fits; nothing otherwise.
pub open spec fn fitting_path(url: Seq<char>, path: Seq<char>) -> Option<Seq<char>> {
    if path_fits(url, path) {
        url_with_path(url, path)
    } else {
        None
    }
}

/// `url` with its query set to `query`, when that fits; nothing otherwise.
pub open spec fn fitting_query(url: Seq<char>, query: Option<Seq<char>>) -> Option<Seq<char>> {
    if query_fits(url, query) {
        url_with_query(url, query)
    } else {
        None
    }
}

/// `url` with `key=value` appended to its query, when that fits; nothing otherwise.
pub open spec fn fitting_pair(url: Seq<char>, key: Seq<char>, value: Seq<char>) -> Option<Seq<char>> {
    if pair_fits(url, key, value) {
        url_with_pair(url, key, value)
    } else {
        None
    }
}

fn text_bytes(s: &str) -> (r: u128)
    ensures
        r == utf8_len(s@),
        r <= usize::MAX,
{
    s.len() as u128
}

fn with_path(url: &str, path: &str) -> (r: Option<String>)
    ensures
        opt_str(r) == fitting_path(url@, path@),
{
    let url_len = match parse_url(url) {
        Some(parts) => text_bytes(parts.serialization.as_str()),
        None => return set_url_path(url, path),
    };
    let path_len = text_bytes(path);
    if url_len + 3 * path_len + 4 <= u32::MAX as u128 {
        set_url_path(url, path)
    } else {
        None
    }
}

fn with_query(url: &str, query: Option<&str>) -> (r: Option<String>)
    ensures
        opt_str(r) == fitting_query(
            url@,
            match query {
                Some(q) => Some(q@),
                None => None,
            },
        ),
{
    let url_len = match parse_url(url) {
        Some(parts) => text_bytes(parts.serialization.as_str()),
        None => return set_url_query(url, query),
    };
    let query_len = match query {
        Some(q) => text_bytes(q),
        None => 0,
    };
    if url_len + 3 * query_len + 4 <= u32::MAX as u128 {
        set_url_query(url, query)
    } else {
        None
    }
}

fn with_pair(url: &str, key: &str, value: &str) -> (r: Option<String>)
    ensures
        opt_str(r) == fitting_pair(url@, key@, value@),
{
    let url_len = match parse_url(url) {
        Some(parts) => text_bytes(parts.serialization.as_str()),
        None => return append_query_pair(url, key, value),
    };
    let key_len = text_bytes(key);
    let value_len = text_bytes(value);
    if url_len + 3 * (key_len + value_len) + 4 <= u32::MAX as u128 {
        append_query_pair(url, key, value)
    } else {
        None
    }
}

/// Whether the WebView may navigate to a URL with these parts: the messenger over HTTPS or
/// secure WebSocket, the app's own `tauri:` pages, and, in development builds only, the local
/// dev servers.
pub open spec fn navigation_allowed(parts: UrlPartsView, development: bool) -> bool {
    if parts.scheme == "https"@ || parts.scheme == "wss"@ {
        parts.host == Some(REMOTE_HOST@)
    } else if development && (parts.scheme == "http"@ || parts.scheme == "ws"@) {
        (parts.host == Some("localhost"@) || parts.host == Some("127.0.0.1"@)) && (parts.port
            == Some(3010u16) || parts.port == Some(4000u16) || parts.port == Some(1420u16))
    } else {
        parts.scheme == "tauri"@
    }
}

/// The WebView goes only to the messenger (`https` or `wss` on `chat-stem.ru`) and the app's
/// own `tauri:` pages; plain `http`/`ws` only in development, and then only to the local dev
/// servers. Development builds allow everything release builds allow.
pub proof fn law_navigation_policy(parts: UrlPartsView, development: bool)
    ensures
        navigation_allowed(parts, false) <==> ((parts.scheme == "https"@ || parts.scheme == "wss"@)
            && parts.host == Some("chat-stem.ru"@) || parts.scheme == "tauri"@),
        navigation_allowed(parts, false) ==> navigation_allowed(parts, development),
        navigation_allowed(parts, true) && !navigation_allowed(parts, false) ==> (parts.scheme == "http"@
            || parts.scheme == "ws"@) && (parts.host == Some("localhost"@) || parts.host == Some(
            "127.0.0.1"@,
        )) && (parts.port == Some(3010u16) || parts.port == Some(4000u16) || parts.port == Some(
            1420u16,
        )),
{
    reveal_strlit("https");
    reveal_strlit("wss");
    reveal_strlit("tauri");
    reveal_strlit("http");
    reveal_strlit("ws");
    reveal_strlit("chat-stem.ru");
    assert("tauri"@ != "https"@) by {
        assert("tauri"@[0] != "https"@[0]);
    }
    assert("tauri"@ != "wss"@) by {
        assert("tauri"@[0] != "wss"@[0]);
    }
    assert("tauri"@ != "http"@) by {
        assert("tauri"@[0] != "http"@[0]);
    }
    assert("tauri"@ != "ws"@) by {
        assert("tauri"@[0] != "ws"@[0]);
    }
    assert("http"@ != "https"@) by {
        assert("http"@.len() != "https"@.len());
    }
    assert("http"@ != "wss"@) by {
        assert("http"@[0] != "wss"@[0]);
    }
    assert("ws"@ != "https"@) by {
        assert("ws"@[0] != "https"@[0]);
    }
    assert("ws"@ != "wss"@) by {
        assert("ws"@.len() != "wss"@.len());
    }
}

fn is_text(value: &Option<String>, expected: &str) -> (r: bool)
    ensures
        r == (opt_str(*value) == Some(expected@)),
{
    match value {
        Some(v) => *v == owned(expected),
        None => false,
    }
}

pub fn is_allowed_navigation_url(url: &UrlParts, development: bool) -> (r: bool)
    ensures
        r == navigation_allowed(url@, development),
{
    let scheme = &url.scheme;
    if *scheme == owned("https") || *scheme == owned("wss") {
        is_text(&url.host, REMOTE_HOST)
    } else if development && (*scheme == owned("http") || *scheme == owned("ws")) {
        (is_text(&url.host, "localhost") || is_text(&url.host, "127.0.0.1")) && (url.port == Some(
            3010u16,
        ) || url.port == Some(4000u16) || url.port == Some(1420u16))
    } else {
        *scheme == owned("tauri")
    }
}

pub open spec fn url_allowed(value: Seq<char>, development: bool) -> bool {
    match url_parts(value) {
        Some(parts) => navigation_allowed(parts, development),
        None => false,
    }
}

pub fn is_allowed_url(value: &str, development: bool) -> (r: bool)
    ensures
        r == url_allowed(value@, development),
{
    match parse_url(value) {
        Some(parts) => is_allowed_navigation_url(&parts, development),
        None => false,
    }
}

/// The remote URL that the configuration asks for, trimmed, when navigation to it is
/// allowed; the default remote URL otherwise.
pub fn normalize_remote_url(value: &str, development: bool) -> (r: String)
    ensures
        r@ == if url_allowed(crate::text::trim_ws(value@), development) {
            crate::text::trim_ws(value@)
        } else {
            DEFAULT_REMOTE_URL@
        },
{
    let trimmed = crate::text::trim(value);
    if is_allowed_url(trimmed, development) {
        owned(trimmed)
    } else {
        owned(DEFAULT_REMOTE_URL)
    }
}

/// Only `http` and `https` URLs are handed to the system browser.
pub open spec fn external_url_allowed(value: Seq<char>) -> bool {
    match url_parts(value) {
        Some(parts) => parts.scheme == "http"@ || parts.scheme == "https"@,
        None => false,
    }
}

/// Checks a URL before it is opened in the system browser.
pub fn check_external_url(url: &str) -> (r: Result<(), String>)
    ensures
        r is Ok <==> external_url_allowed(url@),
        r matches Err(message) ==> (url_parts(url@) is None ==> message@ == "invalid external URL"@)
            && (url_parts(url@) is Some ==> message@
            == "only http and https URLs can be opened externally"@),
{
    match parse_url(url) {
        None => Err(owned("invalid external URL")),
        Some(parts) => {
            if parts.scheme == owned("http") || parts.scheme == owned("https") {
                Ok(())
            } else {
                Err(owned("only http and https URLs can be opened externally"))
            }
        },
    }
}

/// `s` without leading and trailing `/`.
pub open spec fn trim_slashes(s: Seq<char>) -> Seq<char>
    decreases s.len(),
{
    if s.len() > 0 && s[0] == '/' {
        trim_slashes(s.drop_first())
    } else if s.len() > 0 && s.last() == '/' {
        trim_slashes(s.drop_last())
    } else {
        s
    }
}

/// The part of `s` before its first `/`.
pub open spec fn first_segment(s: Seq<char>) -> Seq<char>
    decreases s.len(),
{
    if s.len() == 0 || s[0] == '/' {
        Seq::empty()
    } else {
        seq![s[0]] + first_segment(s.drop_first())
    }
}

/// The decimal value of a run of ASCII digits.
pub open spec fn decimal_value(s: Seq<char>) -> int
    decreases s.len(),
{
    if s.len() == 0 {
        0
    } else {
        decimal_value(s.drop_last()) * 10 + (s.last() as int - '0' as int)
    }
}

pub open spec fn all_digits(s: Seq<char>) -> bool {
    forall|i: int| 0 <= i < s.len() ==> crate::text::is_ascii_digit_char(#[trigger] s[i])
}

/// Whether `<u64 as FromStr>` accepts `s`: an optional `+`, then one or more ASCII digits
/// whose value fits in 64 bits.
pub open spec fn parses_as_u64(s: Seq<char>) -> bool {
    let digits = if s.len() > 0 && s[0] == '+' {
        s.drop_first()
    } else {
        s
    };
    digits.len() > 0 && all_digits(digits) && decimal_value(digits) <= u64::MAX
}

/// `s.parse::<u64>().is_ok()`.
pub fn is_u64_text(s: &Vec<char>) -> (r: bool)
    ensures
        r == parses_as_u64(s@),
{
    let start: usize = if s.len() > 0 && s[0] == '+' {
        1
    } else {
        0
    };
    let ghost digits = s@.subrange(start as int, s@.len() as int);
    proof {
        if start == 1 {
            assert(digits =~= s@.drop_first());
        } else {
            assert(digits =~= s@);
        }
    }
    if start >= s.len() {
        return false;
    }
    let mut value: u64 = 0;
    let mut i = start;
    while i < s.len()
        invariant
            start <= i <= s@.len(),
            digits == s@.subrange(start as int, s@.len() as int),
            digits == (if s@.len() > 0 && s@[0] == '+' {
                s@.drop_first()
            } else {
                s@
            }),
            digits.len() > 0,
            all_digits(s@.subrange(start as int, i as int)),
            value == decimal_value(s@.subrange(start as int, i as int)),
        decreases s@.len() - i,
    {
        let c = s[i];
        let ghost done = s@.subrange(start as int, i as int);
        let ghost next = s@.subrange(start as int, i + 1);
        proof {
            assert(next.drop_last() =~= done);
            assert(next.last() == c);
        }
        if !('0' <= c && c <= '9') {
            proof {
                assert(digits[i - start] == c);
                assert(!crate::text::is_ascii_digit_char(digits[i - start]));
            }
            return false;
        }
        let d = (c as u32 - '0' as u32) as u64;
        if value > (u64::MAX - d) / 10 {
            proof {
                assert(decimal_value(next) == value * 10 + d);
                assert(value * 10 + d > u64::MAX) by (nonlinear_arith)
                    requires
                        value > (u64::MAX - d) / 10,
                        d <= 9,
                ;
                assert(next =~= digits.subrange(0, i + 1 - start));
                if all_digits(digits) {
                    lemma_decimal_value_grows(digits, i + 1 - start);
                }
            }
            return false;
        }
        proof {
            assert(value * 10 + d <= u64::MAX) by (nonlinear_arith)
                requires
                    value <= (u64::MAX - d) / 10,
                    d <= 9,
            ;
        }
        value = value * 10 + d;
        i = i + 1;
    }
    true
}

proof fn lemma_decimal_value_nonnegative(s: Seq<char>)
    requires
        all_digits(s),
    ensures
        decimal_value(s) >= 0,
    decreases s.len(),
{
    if s.len() > 0 {
        assert(all_digits(s.drop_last())) by {
            assert forall|i: int| 0 <= i < s.drop_last().len() implies crate::text::is_ascii_digit_char(
                #[trigger] s.drop_last()[i],
            ) by {
                assert(s.drop_last()[i] == s[i]);
            }
        }
        lemma_decimal_value_nonnegative(s.drop_last());
        assert(crate::text::is_ascii_digit_char(s[s.len() - 1]));
    }
}

/// A longer run of digits never has a smaller value.
proof fn lemma_decimal_value_grows(s: Seq<char>, k: int)
    requires
        0 <= k <= s.len(),
        all_digits(s),
    ensures
        decimal_value(s) >= decimal_value(s.subrange(0, k)),
    decreases s.len() - k,
{
    if k < s.len() {
        let p = s.subrange(0, k + 1);
        assert(p.drop_last() =~= s.subrange(0, k));
        assert(all_digits(s.subrange(0, k))) by {
            assert forall|i: int| 0 <= i < k implies crate::text::is_ascii_digit_char(
                #[trigger] s.subrange(0, k)[i],
            ) by {
                assert(s.subrange(0, k)[i] == s[i]);
            }
        }
        lemma_decimal_value_nonnegative(s.subrange(0, k));
        assert(crate::text::is_ascii_digit_char(s[k]));
        assert(p.last() == s[k]);
        assert(decimal_value(p) >= decimal_value(s.subrange(0, k))) by (nonlinear_arith)
            requires
                decimal_value(p) == decimal_value(s.subrange(0, k)) * 10 + (s[k] as int - '0' as int),
                decimal_value(s.subrange(0, k)) >= 0,
                s[k] as int >= '0' as int,
        ;
        lemma_decimal_value_grows(s, k + 1);
    } else {
        assert(s.subrange(0, k) =~= s);
    }
}

/// The page of the messenger that a `stem://` deep link opens, as a path and query of the
/// default remote URL; `None` for links that are not `stem://` links or name no known page.
pub open spec fn deep_link_route(link: UrlPartsView) -> Option<(Seq<char>, Option<Seq<char>>)> {
    let host = match link.host {
        Some(h) => h,
        None => Seq::empty(),
    };
    let path = trim_slashes(link.path);
    let id = first_segment(path);
    if link.scheme != "stem"@ {
        None
    } else if host == "messages"@ {
        Some(("/messages"@, link.query))
    } else if host == "chat"@ {
        Some(("/messages"@, if parses_as_u64(id) {
            Some("user="@ + id)
        } else {
            None
        }))
    } else if host == "room"@ {
        Some(("/messages"@, if parses_as_u64(id) {
            Some("room="@ + id)
        } else {
            None
        }))
    } else if host == "auth"@ && (path == "social/callback"@ || path == "social/complete"@) {
        Some(("/auth/"@ + path, link.query))
    } else {
        None
    }
}

proof fn lemma_decimal_is_u64_text(n: u64)
    ensures
        crate::format::decimal(n).len() > 0,
        all_digits(crate::format::decimal(n)),
        decimal_value(crate::format::decimal(n)) == n,
    decreases n,
{
    let d = crate::format::decimal(n);
    let last = (n % 10) as int;
    assert(crate::format::digit_char(last) as int == '0' as int + last);
    if n >= 10 {
        let m = (n / 10) as u64;
        lemma_decimal_is_u64_text(m);
        let prev = crate::format::decimal(m);
        assert(d == prev.push(crate::format::digit_char(last)));
        assert(d.drop_last() =~= prev);
        assert forall|i: int| 0 <= i < d.len() implies crate::text::is_ascii_digit_char(#[trigger] d[i]) by {
            if i < prev.len() {
                assert(d[i] == prev[i]);
            }
        }
        assert(m * 10 + last == n);
        assert(d.last() == crate::format::digit_char(last));
        assert(decimal_value(d) == decimal_value(prev) * 10 + (d.last() as int - '0' as int));
    } else {
        assert(d.drop_last() =~= Seq::<char>::empty());
        assert(d.last() == crate::format::digit_char(last));
        assert(decimal_value(d) == decimal_value(d.drop_last()) * 10 + (d.last() as int - '0' as int));
    }
}

proof fn lemma_first_segment_without_slash(s: Seq<char>)
    requires
        forall|i: int| 0 <= i < s.len() ==> s[i] != '/',
    ensures
        first_segment(s) == s,
    decreases s.len(),
{
    if s.len() > 0 {
        lemma_first_segment_without_slash(s.drop_first());
        assert(seq![s[0]] + s.drop_first() =~= s);
    }
}

/// A `stem://chat/{n}` or `stem://room/{n}` link opens the conversation with that user or
/// room for every decimal id `n`, and `stem://messages` opens the messages page with the
/// link's own query.
pub proof fn law_deep_link_routes(n: u64, query: Option<Seq<char>>, serialization: Seq<char>)
    ensures
        deep_link_route(
            UrlPartsView {
                scheme: "stem"@,
                host: Some("chat"@),
                port: None,
                path: "/"@ + crate::format::decimal(n),
                query,
                serialization,
            },
        ) == Some(("/messages"@, Some("user="@ + crate::format::decimal(n)))),
        deep_link_route(
            UrlPartsView {
                scheme: "stem"@,
                host: Some("room"@),
                port: None,
                path: "/"@ + crate::format::decimal(n),
                query,
                serialization,
            },
        ) == Some(("/messages"@, Some("room="@ + crate::format::decimal(n)))),
        deep_link_route(
            UrlPartsView {
                scheme: "stem"@,
                host: Some("messages"@),
                port: None,
                path: Seq::empty(),
                query,
                serialization,
            },
        ) == Some(("/messages"@, query)),
{
    reveal_strlit("stem");
    reveal_strlit("chat");
    reveal_strlit("room");
    reveal_strlit("messages");
    reveal_strlit("/");
    let d = crate::format::decimal(n);
    lemma_decimal_is_u64_text(n);
    assert forall|i: int| 0 <= i < d.len() implies d[i] != '/' by {
        assert(crate::text::is_ascii_digit_char(d[i]));
    }
    let path = "/"@ + d;
    assert(path.drop_first() =~= d);
    assert(path[0] == '/');
    assert(crate::text::is_ascii_digit_char(d[0]));
    assert(crate::text::is_ascii_digit_char(d.last()));
    assert(trim_slashes(d) == d);
    assert(trim_slashes(path) == d);
    lemma_first_segment_without_slash(d);
    assert(d[0] != '+');
    assert(parses_as_u64(d));
    assert("chat"@ != "messages"@) by {
        assert("chat"@.len() != "messages"@.len());
    }
    assert("room"@ != "messages"@) by {
        assert("room"@.len() != "messages"@.len());
    }
    assert("room"@ != "chat"@) by {
        assert("room"@[0] != "chat"@[0]);
    }
}

/// Trimming slashes off a text that starts with `dlen` characters other than `/` keeps a
/// prefix of it at least that long.
proof fn lemma_trim_slashes_keeps_prefix(x: Seq<char>, dlen: int) -> (k: int)
    requires
        0 < dlen <= x.len(),
        forall|i: int| 0 <= i < dlen ==> x[i] != '/',
    ensures
        dlen <= k <= x.len(),
        trim_slashes(x) == x.subrange(0, k),
    decreases x.len(),
{
    if x.last() == '/' {
        assert(x.len() > dlen);
        let k = lemma_trim_slashes_keeps_prefix(x.drop_last(), dlen);
        assert(x.drop_last().subrange(0, k) =~= x.subrange(0, k));
        k
    } else {
        assert(x.subrange(0, x.len() as int) =~= x);
        x.len() as int
    }
}

/// The first segment of a slash-free `d` followed by nothing or by a `/` is `d`.
proof fn lemma_first_segment_of_prefix(d: Seq<char>, u: Seq<char>)
    requires
        forall|i: int| 0 <= i < d.len() ==> d[i] != '/',
        u.len() == 0 || u[0] == '/',
    ensures
        first_segment(d + u) == d,
    decreases d.len(),
{
    if d.len() == 0 {
        assert(d + u =~= u);
    } else {
        assert((d + u).drop_first() =~= d.drop_first() + u);
        lemma_first_segment_of_prefix(d.drop_first(), u);
        assert(seq![d[0]] + d.drop_first() =~= d);
    }
}

/// The id of a `stem://chat/...` or `stem://room/...` link is the first segment of its path:
/// for every decimal id `n` and any further path `s`, the link opens the conversation with
/// user or room `n`.
pub proof fn law_deep_link_id_is_first_segment(
    n: u64,
    s: Seq<char>,
    query: Option<Seq<char>>,
    serialization: Seq<char>,
)
    ensures
        deep_link_route(
            UrlPartsView {
                scheme: "stem"@,
                host: Some("chat"@),
                port: None,
                path: "/"@ + crate::format::decimal(n) + "/"@ + s,
                query,
                serialization,
            },
        ) == Some(("/messages"@, Some("user="@ + crate::format::decimal(n)))),
        deep_link_route(
            UrlPartsView {
                scheme: "stem"@,
                host: Some("room"@),
                port: None,
                path: "/"@ + crate::format::decimal(n) + "/"@ + s,
                query,
                serialization,
            },
        ) == Some(("/messages"@, Some("room="@ + crate::format::decimal(n)))),
{
    reveal_strlit("stem");
    reveal_strlit("chat");
    reveal_strlit("room");
    reveal_strlit("messages");
    reveal_strlit("/");
    let d = crate::format::decimal(n);
    lemma_decimal_is_u64_text(n);
    assert forall|i: int| 0 <= i < d.len() implies d[i] != '/' by {
        assert(crate::text::is_ascii_digit_char(d[i]));
    }
    let rest = "/"@ + s;
    let path = "/"@ + d + "/"@ + s;
    let x = d + rest;
    assert(path =~= "/"@ + x);
    assert(path[0] == '/');
    assert(path.drop_first() =~= x);
    assert(trim_slashes(path) == trim_slashes(x));
    assert forall|i: int| 0 <= i < d.len() implies x[i] != '/' by {
        assert(x[i] == d[i]);
    }
    let k = lemma_trim_slashes_keeps_prefix(x, d.len() as int);
    let u = rest.subrange(0, k - d.len());
    assert(x.subrange(0, k) =~= d + u);
    if u.len() > 0 {
        assert(u[0] == rest[0]);
    }
    lemma_first_segment_of_prefix(d, u);
    assert(first_segment(trim_slashes(path)) == d);
    assert(d[0] != '+');
    assert(parses_as_u64(d));
    assert("chat"@ != "messages"@) by {
        assert("chat"@.len() != "messages"@.len());
    }
    assert("room"@ != "messages"@) by {
        assert("room"@.len() != "messages"@.len());
    }
    assert("room"@ != "chat"@) by {
        assert("room"@[0] != "chat"@[0]);
    }
}

/// The URL that a deep link opens: the default remote URL with the route's path and query,
/// each set through `url`.
pub open spec fn deep_link_target(raw: Seq<char>, default_remote_url: Seq<char>) -> Option<Seq<char>> {
    match url_parts(raw) {
        None => None,
        Some(link) => match deep_link_route(link) {
            None => None,
            Some((path, query)) => if link.scheme != "stem"@ || url_parts(default_remote_url) is None {
                None
            } else {
                match fitting_path(default_remote_url, "/messages"@) {
                    None => None,
                    Some(base) => match fitting_query(base, None) {
                        None => None,
                        Some(cleared) => {
                            let routed = if path == "/messages"@ {
                                Some(cleared)
                            } else {
                                fitting_path(cleared, path)
                            };
                            match routed {
                                None => None,
                                Some(u) => if query is Some {
                                    fitting_query(u, query)
                                } else {
                                    Some(u)
                                },
                            }
                        },
                    },
                }
            },
        },
    }
}

fn trimmed_slashes(path: &Vec<char>) -> (r: (usize, usize))
    ensures
        r.0 <= r.1 <= path@.len(),
        path@.subrange(r.0 as int, r.1 as int) == trim_slashes(path@),
{
    let mut start: usize = 0;
    proof {
        assert(path@.subrange(0, path@.len() as int) =~= path@);
    }
    while start < path.len() && path[start] == '/'
        invariant
            start <= path@.len(),
            trim_slashes(path@) == trim_slashes(path@.subrange(start as int, path@.len() as int)),
        decreases path@.len() - start,
    {
        proof {
            let rest = path@.subrange(start as int, path@.len() as int);
            assert(rest.drop_first() =~= path@.subrange(start + 1, path@.len() as int));
        }
        start = start + 1;
    }
    proof {
        assert(path@.subrange(0, path@.len() as int) =~= path@);
    }
    let mut end: usize = path.len();
    while end > start && path[end - 1] == '/'
        invariant
            start <= end <= path@.len(),
            start == path@.len() || path@[start as int] != '/',
            trim_slashes(path@) == trim_slashes(path@.subrange(start as int, end as int)),
        decreases end - start,
    {
        proof {
            let rest = path@.subrange(start as int, end as int);
            assert(rest.drop_last() =~= path@.subrange(start as int, end - 1));
            assert(rest[0] != '/');
        }
        end = end - 1;
    }
    proof {
        let rest = path@.subrange(start as int, end as int);
        if rest.len() > 0 {
            assert(rest[0] != '/');
            assert(rest.last() != '/');
        }
    }
    (start, end)
}

fn first_segment_end(path: &Vec<char>, start: usize, end: usize) -> (r: usize)
    requires
        start <= end <= path@.len(),
    ensures
        start <= r <= end,
        path@.subrange(start as int, r as int) == first_segment(path@.subrange(start as int, end as int)),
{
    let mut i = start;
    while i < end && path[i] != '/'
        invariant
            start <= i <= end <= path@.len(),
            first_segment(path@.subrange(start as int, end as int)) == path@.subrange(start as int, i as int)
                + first_segment(path@.subrange(i as int, end as int)),
        decreases end - i,
    {
        proof {
            let rest = path@.subrange(i as int, end as int);
            assert(rest.drop_first() =~= path@.subrange(i + 1, end as int));
            assert(path@.subrange(start as int, i as int) + (seq![path@[i as int]] + first_segment(
                rest.drop_first(),
            )) =~= path@.subrange(start as int, i + 1) + first_segment(rest.drop_first()));
        }
        i = i + 1;
    }
    proof {
        let rest = path@.subrange(i as int, end as int);
        assert(first_segment(rest) =~= Seq::<char>::empty());
        assert(path@.subrange(start as int, i as int) + Seq::<char>::empty() =~= path@.subrange(
            start as int,
            i as int,
        ));
    }
    i
}

fn concat(a: &str, b: &String) -> (r: String)
    ensures
        r@ == a@ + b@,
{
    let mut out = owned(a);
    out.append(b.as_str());
    out
}

/// The page that a parsed `stem://` link opens: its path and query on the default remote URL;
/// `None` for other links and for links that name no known page.
pub fn stem_deep_link_route(link: &UrlParts) -> (r: Option<(String, Option<String>)>)
    ensures
        match r {
            Some((path, query)) => deep_link_route(link@) == Some((path@, opt_str(query))),
            None => deep_link_route(link@) is None,
        },
{
    if link.scheme != owned("stem") {
        return None;
    }
    let host = match &link.host {
        Some(h) => h.clone(),
        None => String::new(),
    };
    let path_chars = chars_of(link.path.as_str());
    let (start, end) = trimmed_slashes(&path_chars);
    let path = string_of(&path_chars, start, end);
    let id_end = first_segment_end(&path_chars, start, end);
    let id_chars = slice_chars(&path_chars, start, id_end);
    let id = string_of(&path_chars, start, id_end);
    proof {
        assert(path_chars@.subrange(start as int, end as int) == trim_slashes(link@.path));
    }
    if host == owned("messages") {
        Some((owned("/messages"), crate::text::clone_opt_string(&link.query)))
    } else if host == owned("chat") {
        Some((owned("/messages"), if is_u64_text(&id_chars) {
            Some(concat("user=", &id))
        } else {
            None
        }))
    } else if host == owned("room") {
        Some((owned("/messages"), if is_u64_text(&id_chars) {
            Some(concat("room=", &id))
        } else {
            None
        }))
    } else if host == owned("auth") && (path == owned("social/callback") || path == owned(
        "social/complete",
    )) {
        Some((concat("/auth/", &path), crate::text::clone_opt_string(&link.query)))
    } else {
        None
    }
}

/// Maps a `stem://` deep link to the messenger page it opens: `stem://messages` (with its
/// query), `stem://chat/{user_id}`, `stem://room/{room_id}` and the social sign-in callbacks.
/// A page whose URL would pass `u32::MAX` bytes, which the `url` crate cannot hold, is `None`.
pub fn resolve_stem_deep_link(raw: &str, default_remote_url: &str) -> (r: Option<String>)
    ensures
        opt_str(r) == deep_link_target(raw@, default_remote_url@),
{
    let link = match parse_url(raw) {
        Some(link) => link,
        None => return None,
    };
    if link.scheme != owned("stem") {
        return None;
    }
    if parse_url(default_remote_url).is_none() {
        return None;
    }
    let route = stem_deep_link_route(&link);
    let (route_path, route_query) = match route {
        Some(r) => r,
        None => return None,
    };
    let base = match with_path(default_remote_url, "/messages") {
        Some(b) => b,
        None => return None,
    };
    let cleared = match with_query(base.as_str(), None) {
        Some(c) => c,
        None => return None,
    };
    let routed = if route_path == owned("/messages") {
        cleared
    } else {
        match with_path(cleared.as_str(), route_path.as_str()) {
            Some(u) => u,
            None => return None,
        }
    };
    match route_query {
        Some(q) => with_query(routed.as_str(), Some(q.as_str())),
        None => Some(routed),
    }
}

fn slice_chars(chars: &Vec<char>, from: usize, to: usize) -> (r: Vec<char>)
    requires
        from <= to <= chars@.len(),
    ensures
        r@ == chars@.subrange(from as int, to as int),
{
    let mut out: Vec<char> = Vec::new();
    let mut i = from;
    while i < to
        invariant
            from <= i <= to <= chars@.len(),
            out@ == chars@.subrange(from as int, i as int),
        decreases to - i,
    {
        out.push(chars[i]);
        proof {
            assert(out@ =~= chars@.subrange(from as int, i + 1));
        }
        i = i + 1;
    }
    out
}

/// The first command-line argument that is a `stem://` link.
pub open spec fn argv_deep_link(args: Seq<Seq<char>>) -> Option<Seq<char>>
    decreases args.len(),
{
    if args.len() == 0 {
        None
    } else if args[0].len() >= 7 && args[0].subrange(0, 7) == "stem://"@ {
        Some(args[0])
    } else {
        argv_deep_link(args.drop_first())
    }
}

pub fn capture_argv_deep_link(args: &Vec<String>) -> (r: Option<String>)
    ensures
        opt_str(r) == argv_deep_link(crate::text::strs(args@)),
{
    let prefix = chars_of("stem://");
    let mut i: usize = 0;
    proof {
        assert(crate::text::strs(args@).subrange(0, args@.len() as int) =~= crate::text::strs(args@));
    }
    while i < args.len()
        invariant
            prefix@ == "stem://"@,
            i <= args@.len(),
            argv_deep_link(crate::text::strs(args@)) == argv_deep_link(crate::text::strs(args@).subrange(
                i as int,
                args@.len() as int,
            )),
        decreases args@.len() - i,
    {
        let chars = chars_of(args[i].as_str());
        proof {
            let rest = crate::text::strs(args@).subrange(i as int, args@.len() as int);
            assert(rest[0] == args@[i as int]@);
            assert(rest.drop_first() =~= crate::text::strs(args@).subrange(i + 1, args@.len() as int));
            reveal_strlit("stem://");
        }
        if starts_with(&chars, &prefix) {
            return Some(args[i].clone());
        }
        i = i + 1;
    }
    None
}

fn starts_with(s: &Vec<char>, prefix: &Vec<char>) -> (r: bool)
    ensures
        r == (s@.len() >= prefix@.len() && s@.subrange(0, prefix@.len() as int) == prefix@),
{
    if s.len() < prefix.len() {
        return false;
    }
    let mut i: usize = 0;
    while i < prefix.len()
        invariant
            prefix@.len() <= s@.len(),
            i <= prefix@.len(),
            forall|j: int| 0 <= j < i ==> s@[j] == prefix@[j],
        decreases prefix@.len() - i,
    {
        if s[i] != prefix[i] {
            proof {
                assert(s@.subrange(0, prefix@.len() as int)[i as int] != prefix@[i as int]);
            }
            return false;
        }
        i = i + 1;
    }
    proof {
        assert(s@.subrange(0, prefix@.len() as int) =~= prefix@);
    }
    true
}

/// The serialization of the URL that `Url::parse(url)` gives after appending the query pair
/// `key=value` (form-encoded); `None` when `url` does not parse.
pub uninterp spec fn url_with_pair(url: Seq<char>, key: Seq<char>, value: Seq<char>) -> Option<Seq<char>>;

/// `Url::parse(url)`, `query_pairs_mut().append_pair(key, value)`, `to_string()`, made only
/// where the result fits in the `u32` offsets of the `url` crate (which panics otherwise).
#[verifier::external_body]
pub(crate) fn append_query_pair(url: &str, key: &str, value: &str) -> (r: Option<String>)
    requires
        pair_fits(url@, key@, value@),
    ensures
        opt_str(r) == url_with_pair(url@, key@, value@),
{
    match Url::parse(url) {
        Ok(mut parsed) => {
            parsed.query_pairs_mut().append_pair(key, value);
            Some(parsed.to_string())
        },
        Err(_) => None,
    }
}

/// The page the main window opens first: the page of a deep link on the command line, else
/// the default remote URL; tagged with the shell's version and start counter.
pub open spec fn initial_url(args: Seq<Seq<char>>, shell_version: Seq<char>, start_counter: Seq<char>) -> Option<Seq<char>> {
    let target = match argv_deep_link(args) {
        Some(raw) => match deep_link_target(raw, DEFAULT_REMOTE_URL@) {
            Some(t) => t,
            None => DEFAULT_REMOTE_URL@,
        },
        None => DEFAULT_REMOTE_URL@,
    };
    let base = if url_parts(target) is Some {
        target
    } else {
        DEFAULT_REMOTE_URL@
    };
    match fitting_pair(base, "_stem_desktop_shell"@, shell_version) {
        Some(tagged) => fitting_pair(tagged, "_stem_desktop_start"@, start_counter),
        None => None,
    }
}

/// The first page of the main window; `None` only when the default remote URL itself does not
/// parse, or when the tags would take it past `u32::MAX` bytes, which the `url` crate cannot
/// hold.
pub fn initial_remote_url(args: &Vec<String>, shell_version: &str, start_counter: &str) -> (r: Option<String>)
    ensures
        opt_str(r) == initial_url(crate::text::strs(args@), shell_version@, start_counter@),
{
    let target = match capture_argv_deep_link(args) {
        Some(raw) => match resolve_stem_deep_link(raw.as_str(), DEFAULT_REMOTE_URL) {
            Some(t) => t,
            None => owned(DEFAULT_REMOTE_URL),
        },
        None => owned(DEFAULT_REMOTE_URL),
    };
    let base = if parse_url(target.as_str()).is_some() {
        target
    } else {
        owned(DEFAULT_REMOTE_URL)
    };
    match with_pair(base.as_str(), "_stem_desktop_shell", shell_version) {
        Some(tagged) => with_pair(tagged.as_str(), "_stem_desktop_start", start_counter),
        None => None,
    }
}

/// The JSON string literal that `serde_json::to_string` makes of `s`, if it succeeds.
pub uninterp spec fn json_string_literal(s: Seq<char>) -> Option<Seq<char>>;

/// `serde_json::to_string(s)`.
#[verifier::external_body]
fn json_string(s: &str) -> (r: Option<String>)
    ensures
        opt_str(r) == json_string_literal(s@),
{
    serde_json::to_string(s).ok()
}

/// The script that moves the main window to `target`.
pub fn navigation_script(target: &str) -> (r: String)
    ensures
        r@ == "window.location.replace("@ + match json_string_literal(target@) {
            Some(literal) => literal,
            None => "\"/\""@,
        } + ")"@,
{
    let literal = match json_string(target) {
        Some(l) => l,
        None => owned("\"/\""),
    };
    let mut script = owned("window.location.replace(");
    script.append(literal.as_str());
    script.append(")");
    script
}

} // verus!
