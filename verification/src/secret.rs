//! Secret chats: the crypto identity a native session is bound to, the single-use tickets that
//! hand it to the secret window, and what the crypto runtime reports.
use vstd::prelude::*;

use crate::ids::{
    base64_url_bytes, base64_url_text, canonical_uuid, decode_base64_url, encode_base64_url,
    new_uuid_v4, uuid_text,
};
use crate::text::{fails_with, opt_text, owned, trim, trim_ws};

verus! {

/// How long an issued ticket stays valid: one minute, in nanoseconds.
pub const TICKET_TTL_NANOS: u128 = 60_000_000_000;

/// An account and the public key of its crypto device.
pub struct SecretAuthContext {
    pub account_id: String,
    pub crypto_public_key: String,
}

/// Whether `key` is the canonical URL-safe Base64 text of a 32-byte public key.
pub open spec fn canonical_public_key(key: Seq<char>) -> bool {
    match base64_url_bytes(vstd::utf8::encode_utf8(key)) {
        Some(bytes) => bytes.len() == 32 && base64_url_text(bytes) == key,
        None => false,
    }
}

impl SecretAuthContext {
    /// Accepts an account id that is a UUID (kept in canonical form) and a public key that is
    /// the canonical Base64 text of 32 bytes; anything else is `crypto_device_required`.
    pub fn new(account_id: String, crypto_public_key: String) -> (r: Result<Self, String>)
        ensures
            r is Ok <==> uuid_text(trim_ws(account_id@)) is Some && canonical_public_key(
                crypto_public_key@,
            ),
            r matches Ok(c) ==> Some(c.account_id@) == uuid_text(trim_ws(account_id@))
                && c.crypto_public_key@ == crypto_public_key@,
            r matches Err(e) ==> e@ == "crypto_device_required"@,
    {
        let canonical_account = canonical_uuid(trim(account_id.as_str()));
        let key_bytes = decode_base64_url(crypto_public_key.as_str().as_bytes());
        Self::from_parsed(canonical_account, key_bytes, crypto_public_key)
    }

    /// The check that follows parsing: the account id must have parsed as a UUID (its
    /// canonical text is `canonical_account`), and the key must have decoded to 32 bytes whose
    /// canonical encoding is `crypto_public_key` itself.
    pub fn from_parsed(
        canonical_account: Option<String>,
        key_bytes: Option<Vec<u8>>,
        crypto_public_key: String,
    ) -> (r: Result<Self, String>)
        ensures
            r is Ok <==> (canonical_account is Some && (key_bytes matches Some(bytes) && bytes@.len()
                == 32 && base64_url_text(bytes@) == crypto_public_key@)),
            r matches Ok(c) ==> canonical_account matches Some(a) && c.account_id@ == a@
                && c.crypto_public_key@ == crypto_public_key@,
            r matches Err(e) ==> e@ == "crypto_device_required"@,
    {
        let account_id = match canonical_account {
            Some(id) => id,
            None => return Err(owned("crypto_device_required")),
        };
        let public_key = match key_bytes {
            Some(bytes) => bytes,
            None => return Err(owned("crypto_device_required")),
        };
        if public_key.len() != 32 || encode_base64_url(public_key.as_slice()) != crypto_public_key {
            return Err(owned("crypto_device_required"));
        }
        Ok(SecretAuthContext { account_id, crypto_public_key })
    }

    pub fn duplicate(&self) -> (r: Self)
        ensures
            r.account_id@ == self.account_id@,
            r.crypto_public_key@ == self.crypto_public_key@,
    {
        SecretAuthContext {
            account_id: self.account_id.clone(),
            crypto_public_key: self.crypto_public_key.clone(),
        }
    }

    pub fn same_as(&self, other: &SecretAuthContext) -> (r: bool)
        ensures
            r == (self.account_id@ == other.account_id@ && self.crypto_public_key@
                == other.crypto_public_key@),
    {
        self.account_id == other.account_id && self.crypto_public_key == other.crypto_public_key
    }
}

/// What the secret window receives to authenticate.
pub struct SecretAuthTicketPayload {
    pub account_id: String,
    pub crypto_public_key: String,
    pub ticket: String,
}

impl SecretAuthTicketPayload {
    pub fn new(context: SecretAuthContext, ticket: String) -> (r: Self)
        ensures
            r.account_id@ == context.account_id@,
            r.crypto_public_key@ == context.crypto_public_key@,
            r.ticket@ == ticket@,
    {
        SecretAuthTicketPayload {
            account_id: context.account_id,
            crypto_public_key: context.crypto_public_key,
            ticket,
        }
    }
}

/// An issued ticket: the identity it is bound to, when it expires and its value.
pub struct TicketView {
    pub account_id: Seq<char>,
    pub crypto_public_key: Seq<char>,
    pub expires_at_nanos: u128,
    pub value: Seq<char>,
}

struct SecretAuthTicket {
    context: SecretAuthContext,
    expires_at_nanos: u128,
    value: String,
}

/// Holds the one ticket that is currently valid, if any.
pub struct SecretAuthTicketStore {
    active: Option<SecretAuthTicket>,
}

/// Whether a presented ticket is accepted: it must be the active one, unexpired, and bound to
/// the expected identity.
pub open spec fn ticket_accepts(
    active: Option<TicketView>,
    value: Seq<char>,
    expected_account: Seq<char>,
    expected_key: Seq<char>,
    now_nanos: u128,
) -> bool {
    match active {
        Some(t) => t.expires_at_nanos >= now_nanos && vstd::utf8::encode_utf8(t.value)
            == vstd::utf8::encode_utf8(value) && t.account_id == expected_account
            && t.crypto_public_key == expected_key,
        None => false,
    }
}

impl SecretAuthTicketStore {
    pub closed spec fn active_ticket(&self) -> Option<TicketView> {
        match self.active {
            Some(t) => Some(
                TicketView {
                    account_id: t.context.account_id@,
                    crypto_public_key: t.context.crypto_public_key@,
                    expires_at_nanos: t.expires_at_nanos,
                    value: t.value@,
                },
            ),
            None => None,
        }
    }

    pub fn new() -> (r: Self)
        ensures
            r.active_ticket() is None,
    {
        SecretAuthTicketStore { active: None }
    }

    /// Issues a fresh random ticket for `context`, valid for one minute, replacing any
    /// earlier one. The ticket is the canonical text of a random UUID.
    pub fn issue(&mut self, context: SecretAuthContext, now_nanos: u128) -> (r: Result<String, String>)
        requires
            now_nanos <= u128::MAX - TICKET_TTL_NANOS,
        ensures
            r matches Ok(value) && uuid_text(value@) == Some(value@) && final(self).active_ticket() == Some(
                TicketView {
                    account_id: context.account_id@,
                    crypto_public_key: context.crypto_public_key@,
                    expires_at_nanos: (now_nanos + TICKET_TTL_NANOS) as u128,
                    value: value@,
                },
            ),
    {
        let value = new_uuid_v4();
        self.active = Some(
            SecretAuthTicket {
                context,
                expires_at_nanos: now_nanos + TICKET_TTL_NANOS,
                value: value.clone(),
            },
        );
        Ok(value)
    }

    /// Presents a ticket. Whatever the answer, the active ticket is used up.
    pub fn consume(&mut self, value: &str, expected: &SecretAuthContext, now_nanos: u128) -> (r: Result<bool, String>)
        ensures
            r == Ok::<bool, String>(
                ticket_accepts(
                    old(self).active_ticket(),
                    value@,
                    expected.account_id@,
                    expected.crypto_public_key@,
                    now_nanos,
                ),
            ),
            final(self).active_ticket() is None,
    {
        let ticket = self.active.take();
        match ticket {
            None => Ok(false),
            Some(ticket) => Ok(ticket.expires_at_nanos >= now_nanos && constant_time_eq(
                ticket.value.as_str().as_bytes(),
                value.as_bytes(),
            ) && ticket.context.same_as(expected)),
        }
    }
}

/// A ticket issued for an identity at `issued_at` is accepted exactly when its own value is
/// presented, by that identity, within a minute; once presented, the store holds no ticket and
/// refuses every later presentation.
pub proof fn law_ticket_single_use_and_bound(
    account_id: Seq<char>,
    crypto_public_key: Seq<char>,
    issued_at: u128,
    value: Seq<char>,
    presented: Seq<char>,
    expected_account: Seq<char>,
    expected_key: Seq<char>,
    now: u128,
)
    requires
        issued_at <= u128::MAX - TICKET_TTL_NANOS,
    ensures
        ticket_accepts(
            Some(
                TicketView {
                    account_id,
                    crypto_public_key,
                    expires_at_nanos: (issued_at + TICKET_TTL_NANOS) as u128,
                    value,
                },
            ),
            presented,
            expected_account,
            expected_key,
            now,
        ) <==> (presented == value && expected_account == account_id && expected_key
            == crypto_public_key && now <= issued_at + TICKET_TTL_NANOS),
        !ticket_accepts(None, presented, expected_account, expected_key, now),
{
    vstd::utf8::encode_utf8_decode_utf8(value);
    vstd::utf8::encode_utf8_decode_utf8(presented);
}

/// Compares two byte strings without stopping at the first difference.
pub fn constant_time_eq(left: &[u8], right: &[u8]) -> (r: bool)
    ensures
        r == (left@ == right@),
{
    if left.len() != right.len() {
        return false;
    }
    let mut diff: u8 = 0;
    let mut i: usize = 0;
    while i < left.len()
        invariant
            left@.len() == right@.len(),
            i <= left@.len(),
            diff == 0 <==> forall|j: int| 0 <= j < i ==> left@[j] == right@[j],
        decreases left@.len() - i,
    {
        let a = left[i];
        let b = right[i];
        let x = a ^ b;
        let next = diff | x;
        assert(next == 0 <==> (diff == 0 && x == 0)) by (bit_vector)
            requires
                next == diff | x,
        ;
        assert(x == 0 <==> a == b) by (bit_vector)
            requires
                x == a ^ b,
        ;
        diff = next;
        i = i + 1;
    }
    proof {
        if diff == 0 {
            assert(left@ =~= right@);
        }
    }
    diff == 0
}

/// What the secret-chat runtime says of itself.
pub struct SecretRuntimeSnapshot {
    pub protocol_version: u16,
    pub reason: Option<&'static str>,
    pub status: &'static str,
}

/// What the native crypto core reports of its readiness.
pub struct CryptoCoreReadiness {
    pub protocol_version: u16,
    pub native_initialized: bool,
    pub recovery_primitives_compiled: bool,
    pub sqlcipher_compiled: bool,
    pub sqlcipher_runtime_verified: bool,
    pub mls_application_messages_available: bool,
    pub transparency_verifier_available: bool,
    pub secret_chats_ready: bool,
    pub blocking_reasons: Vec<String>,
}

pub open spec fn core_ready(r: CryptoCoreReadiness) -> bool {
    &&& r.protocol_version == 2
    &&& r.native_initialized
    &&& r.recovery_primitives_compiled
    &&& r.sqlcipher_compiled
    &&& r.sqlcipher_runtime_verified
    &&& r.mls_application_messages_available
    &&& r.transparency_verifier_available
    &&& r.secret_chats_ready
    &&& r.blocking_reasons@.len() == 0
}

/// The runtime of a build with the crypto core: ready only when every check passes and
/// nothing blocks it.
pub fn snapshot_from_readiness(readiness: &CryptoCoreReadiness) -> (r: SecretRuntimeSnapshot)
    ensures
        r.protocol_version == readiness.protocol_version,
        core_ready(*readiness) ==> r.status@ == "ready"@ && r.reason is None,
        !core_ready(*readiness) ==> r.status@ == "unavailable"@ && opt_text(r.reason) == Some(
            "protocol_version_unsupported"@,
        ),
        r.status@ == "ready"@ ==> readiness.protocol_version == 2 && readiness.native_initialized
            && readiness.recovery_primitives_compiled && readiness.sqlcipher_compiled
            && readiness.sqlcipher_runtime_verified && readiness.mls_application_messages_available
            && readiness.transparency_verifier_available && readiness.secret_chats_ready
            && readiness.blocking_reasons@.len() == 0,
{
    let ready = readiness.protocol_version == 2 && readiness.native_initialized
        && readiness.recovery_primitives_compiled && readiness.sqlcipher_compiled
        && readiness.sqlcipher_runtime_verified && readiness.mls_application_messages_available
        && readiness.transparency_verifier_available && readiness.secret_chats_ready
        && readiness.blocking_reasons.len() == 0;
    proof {
        reveal_strlit("ready");
        reveal_strlit("unavailable");
        assert("ready"@ != "unavailable"@) by {
            assert("ready"@.len() != "unavailable"@.len());
        }
    }
    SecretRuntimeSnapshot {
        protocol_version: readiness.protocol_version,
        reason: if ready {
            None
        } else {
            Some("protocol_version_unsupported")
        },
        status: if ready {
            "ready"
        } else {
            "unavailable"
        },
    }
}

/// The crypto core counts as ready exactly when it speaks protocol 2, every one of its checks
/// holds (initialised, recovery primitives and SQLCipher compiled, SQLCipher verified at run
/// time, MLS application messages and the transparency verifier available, secret chats
/// ready) and it reports no blocking reason; any single failed check makes it unavailable.
pub proof fn law_ready_only_when_every_check_passes(r: CryptoCoreReadiness)
    ensures
        core_ready(r) ==> r.protocol_version == 2,
        core_ready(r) ==> r.native_initialized,
        core_ready(r) ==> r.recovery_primitives_compiled,
        core_ready(r) ==> r.sqlcipher_compiled,
        core_ready(r) ==> r.sqlcipher_runtime_verified,
        core_ready(r) ==> r.mls_application_messages_available,
        core_ready(r) ==> r.transparency_verifier_available,
        core_ready(r) ==> r.secret_chats_ready,
        core_ready(r) ==> r.blocking_reasons@.len() == 0,
        r.protocol_version == 2 && r.native_initialized && r.recovery_primitives_compiled
            && r.sqlcipher_compiled && r.sqlcipher_runtime_verified
            && r.mls_application_messages_available && r.transparency_verifier_available
            && r.secret_chats_ready && r.blocking_reasons@.len() == 0 ==> core_ready(r),
{
}

/// The secret-chat runtime of the shell.
pub struct SecretRuntimeState;

impl SecretRuntimeState {
    /// The runtime of a build without the crypto core: always unavailable.
    pub fn snapshot(&self) -> (r: SecretRuntimeSnapshot)
        ensures
            r.protocol_version == 2,
            r.status@ == "unavailable"@,
            opt_text(r.reason) == Some("protocol_version_unsupported"@),
    {
        SecretRuntimeSnapshot {
            protocol_version: 2,
            reason: Some("protocol_version_unsupported"),
            status: "unavailable",
        }
    }
}

/// What the secret window is answered about the crypto runtime.
pub struct SecretCryptoStatus {
    pub protocol_version: u16,
    pub reason: Option<&'static str>,
    pub status: &'static str,
}

impl SecretCryptoStatus {
    pub fn from_snapshot(snapshot: SecretRuntimeSnapshot) -> (r: Self)
        ensures
            r.protocol_version == snapshot.protocol_version,
            r.reason == snapshot.reason,
            r.status == snapshot.status,
    {
        SecretCryptoStatus {
            protocol_version: snapshot.protocol_version,
            reason: snapshot.reason,
            status: snapshot.status,
        }
    }
}

/// Admits a status request: it must come from the secret window, name a valid crypto identity
/// and present the ticket issued for exactly that identity.
pub fn authorize_secret_crypto_status(
    window_label: &str,
    tickets: &mut SecretAuthTicketStore,
    ticket: &str,
    account_id: String,
    crypto_public_key: String,
    now_nanos: u128,
) -> (r: Result<(), String>)
    ensures
        window_label@ != "secret"@ ==> fails_with(r, "secret_chat_native_only"@)
            && final(tickets).active_ticket() == old(tickets).active_ticket(),
        window_label@ == "secret"@ && !(uuid_text(trim_ws(account_id@)) is Some
            && canonical_public_key(crypto_public_key@)) ==> fails_with(r, "crypto_device_required"@)
            && final(tickets).active_ticket() == old(tickets).active_ticket(),
        window_label@ == "secret"@ && uuid_text(trim_ws(account_id@)) is Some
            && canonical_public_key(crypto_public_key@) ==> final(tickets).active_ticket() is None
            && (r is Ok <==> ticket_accepts(
            old(tickets).active_ticket(),
            ticket@,
            uuid_text(trim_ws(account_id@))->0,
            crypto_public_key@,
            now_nanos,
        )) && (r matches Err(e) ==> e@ == "crypto_device_required"@),
{
    if owned(window_label) != owned("secret") {
        return Err(owned("secret_chat_native_only"));
    }
    let context = match SecretAuthContext::new(account_id, crypto_public_key) {
        Ok(context) => context,
        Err(error) => return Err(error),
    };
    let accepted = match tickets.consume(ticket, &context, now_nanos) {
        Ok(accepted) => accepted,
        Err(error) => return Err(error),
    };
    if !accepted {
        return Err(owned("crypto_device_required"));
    }
    Ok(())
}

} // verus!
