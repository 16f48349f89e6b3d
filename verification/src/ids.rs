//! Identifiers and encodings computed by outside crates: UUIDs (`uuid`), and standard Base64
//! and URL-safe Base64 without padding (`base64`).
use base64::engine::general_purpose::{STANDARD, URL_SAFE_NO_PAD};
use base64::Engine;
use uuid::Uuid;
use vstd::prelude::*;

use crate::text::opt_str;

verus! {

/// The hyphenated lower-case text of the UUID that `uuid::Uuid::parse_str` reads from
/// `input`, or `None` when it rejects `input`.
pub uninterp spec fn uuid_text(input: Seq<char>) -> Option<Seq<char>>;

/// `Uuid::parse_str(input)` followed by `to_string()`: the canonical text of the UUID, or
/// `None` when `input` is not a UUID.
#[verifier::external_body]
pub(crate) fn canonical_uuid(input: &str) -> (r: Option<String>)
    ensures
        opt_str(r) == uuid_text(input@),
{
    match Uuid::parse_str(input) {
        Ok(uuid) => Some(uuid.to_string()),
        Err(_) => None,
    }
}

/// `Uuid::new_v4().to_string()`: a fresh random UUID. Which UUID comes from the random number
/// generator; whatever it is, its text is the hyphenated lower-case form, which
/// `Uuid::parse_str` reads back to the same text.
#[verifier::external_body]
pub(crate) fn new_uuid_v4() -> (r: String)
    ensures
        uuid_text(r@) == Some(r@),
{
    Uuid::new_v4().to_string()
}

/// The character of a 6-bit value in the URL-safe Base64 alphabet (RFC 4648, section 5).
pub open spec fn base64_url_digit(v: int) -> char {
    if v < 26 {
        ('A' as int + v) as char
    } else if v < 52 {
        ('a' as int + (v - 26)) as char
    } else if v < 62 {
        ('0' as int + (v - 52)) as char
    } else if v == 62 {
        '-'
    } else {
        '_'
    }
}

/// URL-safe Base64 of `bytes`, without padding: four characters per three bytes, and two or
/// three characters for a final group of one or two bytes.
pub open spec fn base64_url_text(bytes: Seq<u8>) -> Seq<char>
    decreases bytes.len(),
{
    if bytes.len() == 0 {
        Seq::empty()
    } else if bytes.len() == 1 {
        seq![base64_url_digit(bytes[0] as int / 4), base64_url_digit((bytes[0] as int % 4) * 16)]
    } else if bytes.len() == 2 {
        seq![
            base64_url_digit(bytes[0] as int / 4),
            base64_url_digit((bytes[0] as int % 4) * 16 + bytes[1] as int / 16),
            base64_url_digit((bytes[1] as int % 16) * 4),
        ]
    } else {
        seq![
            base64_url_digit(bytes[0] as int / 4),
            base64_url_digit((bytes[0] as int % 4) * 16 + bytes[1] as int / 16),
            base64_url_digit((bytes[1] as int % 16) * 4 + bytes[2] as int / 64),
            base64_url_digit(bytes[2] as int % 64),
        ] + base64_url_text(bytes.subrange(3, bytes.len() as int))
    }
}

/// `URL_SAFE_NO_PAD.encode(bytes)`.
#[verifier::external_body]
pub(crate) fn encode_base64_url(bytes: &[u8]) -> (r: String)
    ensures
        r@ == base64_url_text(bytes@),
{
    URL_SAFE_NO_PAD.encode(bytes)
}

/// The bytes that `URL_SAFE_NO_PAD.decode` reads from `input`, or `None` when it rejects
/// `input`.
pub uninterp spec fn base64_url_bytes(input: Seq<u8>) -> Option<Seq<u8>>;

/// `URL_SAFE_NO_PAD.decode(input)`.
#[verifier::external_body]
pub(crate) fn decode_base64_url(input: &[u8]) -> (r: Option<Vec<u8>>)
    ensures
        match r {
            Some(bytes) => base64_url_bytes(input@) == Some(bytes@),
            None => base64_url_bytes(input@) is None,
        },
{
    match URL_SAFE_NO_PAD.decode(input) {
        Ok(bytes) => Some(bytes),
        Err(_) => None,
    }
}

/// The character of a 6-bit value in the standard Base64 alphabet (RFC 4648, section 4).
pub open spec fn base64_std_digit(v: int) -> char {
    if v < 26 {
        ('A' as int + v) as char
    } else if v < 52 {
        ('a' as int + (v - 26)) as char
    } else if v < 62 {
        ('0' as int + (v - 52)) as char
    } else if v == 62 {
        '+'
    } else {
        '/'
    }
}

/// Standard Base64 of `bytes`, padded with `=` to a multiple of four characters.
pub open spec fn base64_std_text(bytes: Seq<u8>) -> Seq<char>
    decreases bytes.len(),
{
    if bytes.len() == 0 {
        Seq::empty()
    } else if bytes.len() == 1 {
        seq![base64_std_digit(bytes[0] as int / 4), base64_std_digit((bytes[0] as int % 4) * 16), '=', '=']
    } else if bytes.len() == 2 {
        seq![
            base64_std_digit(bytes[0] as int / 4),
            base64_std_digit((bytes[0] as int % 4) * 16 + bytes[1] as int / 16),
            base64_std_digit((bytes[1] as int % 16) * 4),
            '=',
        ]
    } else {
        seq![
            base64_std_digit(bytes[0] as int / 4),
            base64_std_digit((bytes[0] as int % 4) * 16 + bytes[1] as int / 16),
            base64_std_digit((bytes[1] as int % 16) * 4 + bytes[2] as int / 64),
            base64_std_digit(bytes[2] as int % 64),
        ] + base64_std_text(bytes.subrange(3, bytes.len() as int))
    }
}

/// `STANDARD.encode(bytes)`.
#[verifier::external_body]
pub(crate) fn encode_base64_standard(bytes: &[u8]) -> (r: String)
    ensures
        r@ == base64_std_text(bytes@),
{
    STANDARD.encode(bytes)
}

/// What `STANDARD.decode` makes of `input`: the bytes, or the text of the error it reports.
pub uninterp spec fn base64_std_decoded(input: Seq<u8>) -> Result<Seq<u8>, Seq<char>>;

/// `STANDARD.decode(input)`, with the error turned into its text.
#[verifier::external_body]
pub(crate) fn decode_base64_standard(input: &[u8]) -> (r: Result<Vec<u8>, String>)
    ensures
        match r {
            Ok(bytes) => base64_std_decoded(input@) == Ok::<Seq<u8>, Seq<char>>(bytes@),
            Err(text) => base64_std_decoded(input@) == Err::<Seq<u8>, Seq<char>>(text@),
        },
{
    match STANDARD.decode(input) {
        Ok(bytes) => Ok(bytes),
        Err(error) => Err(format!("{error}")),
    }
}

} // verus!
