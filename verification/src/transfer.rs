//! Limits for native file transfers: a shared budget of active transfers and pending bytes,
//! payload size checks, read clamping and idle expiry.
use vstd::prelude::*;

use vstd::utf8::encode_utf8;

use crate::text::{trim, trim_ws};

verus! {

pub const DESKTOP_TRANSFER_MAX_ACTIVE: usize = 8;

pub const DESKTOP_TRANSFER_MAX_CHUNK_BYTES: usize = 1024 * 1024;

pub const DESKTOP_TRANSFER_LEGACY_MAX_BYTES: usize = 16 * 1024 * 1024;

pub const DESKTOP_TRANSFER_MAX_PENDING_BYTES: u64 = 4 * 1024 * 1024 * 1024;

/// Idle time after which a transfer is abandoned: five minutes, in nanoseconds.
pub const DESKTOP_TRANSFER_IDLE_TIMEOUT_NANOS: u128 = 5 * 60 * 1_000_000_000;

pub const DESKTOP_TRANSFER_CAPACITY_EXCEEDED: &'static str = "desktop_transfer_capacity_exceeded";

pub const DESKTOP_TRANSFER_PAYLOAD_TOO_LARGE: &'static str = "desktop_transfer_payload_too_large";

/// The bytes reserved by the permits recorded in a ledger of `(permit, reserved)` entries.
pub open spec fn reserved_total(ledger: Seq<(nat, nat)>) -> nat
    decreases ledger.len(),
{
    if ledger.len() == 0 {
        0
    } else {
        reserved_total(ledger.drop_last()) + ledger.last().1
    }
}

proof fn lemma_total_update(ledger: Seq<(nat, nat)>, i: int, entry: (nat, nat))
    requires
        0 <= i < ledger.len(),
    ensures
        reserved_total(ledger.update(i, entry)) + ledger[i].1 == reserved_total(ledger) + entry.1,
    decreases ledger.len(),
{
    let updated = ledger.update(i, entry);
    if i < ledger.len() - 1 {
        assert(updated.drop_last() =~= ledger.drop_last().update(i, entry));
        lemma_total_update(ledger.drop_last(), i, entry);
    } else {
        assert(updated.drop_last() =~= ledger.drop_last());
    }
}

proof fn lemma_total_remove(ledger: Seq<(nat, nat)>, i: int)
    requires
        0 <= i < ledger.len(),
    ensures
        reserved_total(ledger.remove(i)) + ledger[i].1 == reserved_total(ledger),
    decreases ledger.len(),
{
    let removed = ledger.remove(i);
    if i < ledger.len() - 1 {
        assert(removed.drop_last() =~= ledger.drop_last().remove(i));
        assert(removed.last() == ledger.last());
        lemma_total_remove(ledger.drop_last(), i);
    } else {
        assert(removed =~= ledger.drop_last());
    }
}

/// Shared accounting of the transfers in progress: how many hold a permit and how many
/// bytes they have reserved together, with a ledger of the live permits.
pub struct DesktopTransferBudget {
    active: usize,
    pending_bytes: u64,
    ledger: Ghost<Seq<(nat, nat)>>,
    next_permit: Ghost<nat>,
}

impl DesktopTransferBudget {
    /// Number of permits handed out and not yet released.
    pub closed spec fn active(&self) -> nat {
        self.active as nat
    }

    /// Bytes reserved by all live permits together.
    pub closed spec fn pending(&self) -> nat {
        self.pending_bytes as nat
    }

    /// The live permits of this budget, each with the bytes it has reserved.
    pub closed spec fn live(&self) -> Seq<(nat, nat)> {
        self.ledger@
    }

    /// The budget's counts are those of its ledger: one permit per live entry, and the
    /// pending bytes are the sum of their reservations.
    pub closed spec fn accounted(&self) -> bool {
        &&& self.active as nat == self.ledger@.len()
        &&& self.pending_bytes as nat == reserved_total(self.ledger@)
        &&& forall|i: int| 0 <= i < self.ledger@.len() ==> (#[trigger] self.ledger@[i]).0 < self.next_permit@
    }

    /// The budget never holds more than the allowed permits and bytes, and its counts match
    /// its live permits.
    pub open spec fn within_limits(&self) -> bool {
        &&& self.active() <= DESKTOP_TRANSFER_MAX_ACTIVE
        &&& self.pending() <= DESKTOP_TRANSFER_MAX_PENDING_BYTES
        &&& self.accounted()
    }

    /// Every budget stays within its limits: it is made so and every method keeps it so.
    #[verifier::type_invariant]
    spec fn limits_kept(self) -> bool {
        self.within_limits()
    }

    /// Whether `permit` is one of this budget's live permits, with the bytes it has reserved.
    pub open spec fn holds(&self, permit: &DesktopTransferPermit) -> bool {
        exists|i: int| 0 <= i < self.live().len() && #[trigger] self.live()[i] == (permit.id(), permit.reserved())
    }

    pub fn active_transfers(&self) -> (r: usize)
        ensures
            r == self.active(),
    {
        self.active
    }

    pub fn pending_bytes(&self) -> (r: u64)
        ensures
            r == self.pending(),
    {
        self.pending_bytes
    }

    /// Hands out a permit for one more transfer, unless the active limit is reached.
    pub fn acquire(&mut self) -> (r: Result<DesktopTransferPermit, &'static str>)
        ensures
            final(self).within_limits(),
            old(self).active() < DESKTOP_TRANSFER_MAX_ACTIVE <==> r is Ok,
            r is Ok ==> final(self).active() == old(self).active() + 1 && r->Ok_0.reserved() == 0
                && final(self).live() == old(self).live().push((r->Ok_0.id(), 0nat))
                && final(self).holds(&r->Ok_0),
            r is Err ==> final(self).active() == old(self).active() && r->Err_0
                == DESKTOP_TRANSFER_CAPACITY_EXCEEDED && final(self).live() == old(self).live(),
            final(self).pending() == old(self).pending(),
    {
        proof {
            use_type_invariant(&*self);
        }
        if self.active >= DESKTOP_TRANSFER_MAX_ACTIVE {
            return Err(DESKTOP_TRANSFER_CAPACITY_EXCEEDED);
        }
        let ghost id = self.next_permit@;
        let ghost ledger = self.ledger@.push((id, 0nat));
        proof {
            assert(ledger.drop_last() =~= self.ledger@);
            assert(ledger[ledger.len() - 1] == (id, 0nat));
        }
        *self = DesktopTransferBudget {
            active: self.active + 1,
            pending_bytes: self.pending_bytes,
            ledger: Ghost(ledger),
            next_permit: Ghost(id + 1),
        };
        let permit = DesktopTransferPermit { reserved_bytes: 0, id: Ghost(id) };
        proof {
            use_type_invariant(&*self);
        }
        Ok(permit)
    }

    /// Gives a permit back: its slot and every byte it reserved become free again.
    pub fn release(&mut self, permit: DesktopTransferPermit)
        requires
            old(self).holds(&permit),
        ensures
            final(self).within_limits(),
            final(self).active() + 1 == old(self).active(),
            final(self).pending() + permit.reserved() == old(self).pending(),
            exists|i: int|
                0 <= i < old(self).live().len() && old(self).live()[i] == (permit.id(), permit.reserved())
                    && final(self).live() == old(self).live().remove(i),
    {
        proof {
            use_type_invariant(&*self);
        }
        let ghost i = choose|i: int|
            0 <= i < self.ledger@.len() && self.ledger@[i] == (permit.id@, permit.reserved_bytes as nat);
        let ghost ledger = self.ledger@.remove(i);
        proof {
            lemma_total_remove(self.ledger@, i);
            assert forall|k: int| 0 <= k < ledger.len() implies (#[trigger] ledger[k]).0
                < self.next_permit@ by {
                if k < i {
                    assert(ledger[k] == self.ledger@[k]);
                } else {
                    assert(ledger[k] == self.ledger@[k + 1]);
                }
            }
        }
        *self = DesktopTransferBudget {
            active: self.active - 1,
            pending_bytes: self.pending_bytes - permit.reserved_bytes,
            ledger: Ghost(ledger),
            next_permit: self.next_permit,
        };
        proof {
            use_type_invariant(&*self);
        }
    }
}

impl Default for DesktopTransferBudget {
    fn default() -> (r: Self)
        ensures
            r.within_limits(),
            r.active() == 0,
            r.pending() == 0,
            r.live() == Seq::<(nat, nat)>::empty(),
    {
        DesktopTransferBudget { active: 0, pending_bytes: 0, ledger: Ghost(Seq::empty()), next_permit: Ghost(0) }
    }
}

/// The right to run one transfer, with the bytes it has reserved in its budget.
pub struct DesktopTransferPermit {
    reserved_bytes: u64,
    id: Ghost<nat>,
}

impl DesktopTransferPermit {
    pub closed spec fn reserved(&self) -> nat {
        self.reserved_bytes as nat
    }

    /// The permit's entry in the ledger of the budget that handed it out.
    pub closed spec fn id(&self) -> nat {
        self.id@
    }

    /// Reserves `bytes` more for this transfer, in this permit and in the shared budget.
    /// Both totals must stay within `DESKTOP_TRANSFER_MAX_PENDING_BYTES`; otherwise nothing
    /// changes.
    pub fn reserve_bytes(&mut self, budget: &mut DesktopTransferBudget, bytes: u64) -> (r: Result<
        (),
        &'static str,
    >)
        requires
            old(budget).holds(old(self)),
        ensures
            final(budget).within_limits(),
            final(budget).holds(final(self)),
            final(self).id() == old(self).id(),
            r is Ok <==> (old(self).reserved() + bytes <= DESKTOP_TRANSFER_MAX_PENDING_BYTES
                && old(budget).pending() + bytes <= DESKTOP_TRANSFER_MAX_PENDING_BYTES),
            r is Ok ==> final(self).reserved() == old(self).reserved() + bytes
                && final(budget).pending() == old(budget).pending() + bytes
                && exists|i: int|
                0 <= i < old(budget).live().len() && old(budget).live()[i] == (old(self).id(), old(self).reserved())
                    && final(budget).live() == old(budget).live().update(
                    i,
                    (old(self).id(), (old(self).reserved() + bytes) as nat),
                ),
            r is Err ==> r->Err_0 == DESKTOP_TRANSFER_PAYLOAD_TOO_LARGE && final(self).reserved()
                == old(self).reserved() && final(budget).pending() == old(budget).pending()
                && final(budget).live() == old(budget).live(),
            final(budget).active() == old(budget).active(),
    {
        proof {
            use_type_invariant(&*budget);
        }
        let next_reserved = match self.reserved_bytes.checked_add(bytes) {
            Some(value) => value,
            None => return Err(DESKTOP_TRANSFER_PAYLOAD_TOO_LARGE),
        };
        let next_pending = match budget.pending_bytes.checked_add(bytes) {
            Some(value) => value,
            None => return Err(DESKTOP_TRANSFER_PAYLOAD_TOO_LARGE),
        };
        if next_reserved > DESKTOP_TRANSFER_MAX_PENDING_BYTES || next_pending
            > DESKTOP_TRANSFER_MAX_PENDING_BYTES {
            return Err(DESKTOP_TRANSFER_PAYLOAD_TOO_LARGE);
        }
        let ghost i = choose|i: int|
            0 <= i < budget.ledger@.len() && budget.ledger@[i] == (self.id@, self.reserved_bytes as nat);
        let ghost entry = (self.id@, next_reserved as nat);
        proof {
            lemma_total_update(budget.ledger@, i, entry);
        }
        let ghost ledger = budget.ledger@.update(i, entry);
        proof {
            assert(ledger[i] == entry);
            assert forall|k: int| 0 <= k < ledger.len() implies (#[trigger] ledger[k]).0
                < budget.next_permit@ by {
                if k != i {
                    assert(ledger[k] == budget.ledger@[k]);
                }
            }
        }
        self.reserved_bytes = next_reserved;
        *budget = DesktopTransferBudget {
            active: budget.active,
            pending_bytes: next_pending,
            ledger: Ghost(ledger),
            next_permit: budget.next_permit,
        };
        proof {
            use_type_invariant(&*budget);
            assert(budget.live()[i] == (self.id(), self.reserved()));
        }
        Ok(())
    }

    pub fn reserved_bytes(&self) -> (r: u64)
        ensures
            r == self.reserved(),
    {
        self.reserved_bytes
    }
}

/// A file being written that is to be removed unless it is explicitly kept.
pub struct DesktopPartialFile {
    path: String,
    preserve: bool,
}

impl DesktopPartialFile {
    pub closed spec fn path_view(&self) -> Seq<char> {
        self.path@
    }

    pub closed spec fn preserved(&self) -> bool {
        self.preserve
    }

    pub fn new(path: String) -> (r: Self)
        ensures
            r.path_view() == path@,
            !r.preserved(),
    {
        DesktopPartialFile { path, preserve: false }
    }

    pub fn path(&self) -> (r: &str)
        ensures
            r@ == self.path_view(),
    {
        self.path.as_str()
    }

    /// Keeps the file: it will not be removed.
    pub fn preserve(&mut self)
        ensures
            final(self).preserved(),
            final(self).path_view() == old(self).path_view(),
    {
        self.preserve = true;
    }

    /// Ends the guard: the path to remove, unless the file was kept.
    pub fn into_leftover(self) -> (r: Option<String>)
        ensures
            self.preserved() ==> r is None,
            !self.preserved() ==> r is Some && r->0@ == self.path_view(),
    {
        if self.preserve {
            None
        } else {
            Some(self.path)
        }
    }
}

/// Length that the Base64 text of `max_decoded_bytes` bytes may have:
/// four characters per started group of three bytes, capped at `usize::MAX`.
pub open spec fn max_base64_len(max_decoded_bytes: usize) -> int {
    let groups = (max_decoded_bytes + 2) / 3;
    if groups * 4 > usize::MAX {
        usize::MAX as int
    } else {
        groups * 4
    }
}

/// Trims `value` and accepts it when its length in bytes does not exceed the Base64 length of
/// `max_decoded_bytes` bytes.
pub fn ensure_base64_input_size<'a>(value: &'a str, max_decoded_bytes: usize) -> (r: Result<
    &'a str,
    &'static str,
>)
    ensures
        r is Ok <==> (encode_utf8(trim_ws(value@)).len() as usize) <= max_base64_len(max_decoded_bytes),
        r is Ok ==> r->Ok_0@ == trim_ws(value@),
        r is Err ==> r->Err_0 == DESKTOP_TRANSFER_PAYLOAD_TOO_LARGE,
{
    let value = trim(value);
    let groups = max_decoded_bytes / 3 + if max_decoded_bytes % 3 == 0 {
        0
    } else {
        1
    };
    assert(groups == (max_decoded_bytes + 2) / 3) by (nonlinear_arith)
        requires
            groups == max_decoded_bytes / 3 + if max_decoded_bytes % 3 == 0 {
                0int
            } else {
                1int
            },
    ;
    assert((groups > usize::MAX / 4) == (groups * 4 > usize::MAX)) by (nonlinear_arith);
    let max_encoded_bytes = if groups > usize::MAX / 4 {
        usize::MAX
    } else {
        groups * 4
    };
    if value.len() > max_encoded_bytes {
        return Err(DESKTOP_TRANSFER_PAYLOAD_TOO_LARGE);
    }
    Ok(value)
}

pub fn ensure_decoded_size(decoded_bytes: usize, max_decoded_bytes: usize) -> (r: Result<
    (),
    &'static str,
>)
    ensures
        r is Ok <==> decoded_bytes <= max_decoded_bytes,
        r is Err ==> r->Err_0 == DESKTOP_TRANSFER_PAYLOAD_TOO_LARGE,
{
    if decoded_bytes > max_decoded_bytes {
        return Err(DESKTOP_TRANSFER_PAYLOAD_TOO_LARGE);
    }
    Ok(())
}

pub open spec fn min_int(a: int, b: int) -> int {
    if a <= b {
        a
    } else {
        b
    }
}

/// How many bytes a native read may allocate: what was asked for, at most one chunk, and no
/// more than what remains.
pub fn bounded_read_length(requested: usize, remaining: u64) -> (r: usize)
    ensures
        r == min_int(remaining as int, min_int(requested as int, DESKTOP_TRANSFER_MAX_CHUNK_BYTES as int)),
{
    let capped = if requested < DESKTOP_TRANSFER_MAX_CHUNK_BYTES {
        requested
    } else {
        DESKTOP_TRANSFER_MAX_CHUNK_BYTES
    };
    if remaining < capped as u64 {
        remaining as usize
    } else {
        capped
    }
}

/// A transfer is stale once it has been idle for the whole timeout. A `now` before the last
/// activity never makes it stale.
pub fn transfer_is_stale(last_activity_nanos: u128, now_nanos: u128) -> (r: bool)
    ensures
        r == (now_nanos >= last_activity_nanos && now_nanos - last_activity_nanos
            >= DESKTOP_TRANSFER_IDLE_TIMEOUT_NANOS),
{
    now_nanos >= last_activity_nanos && now_nanos - last_activity_nanos
        >= DESKTOP_TRANSFER_IDLE_TIMEOUT_NANOS
}

/// A budget's pending bytes are the sum of what its live permits have reserved, and its
/// active count is the number of live permits; so the sum never exceeds the byte limit and
/// there are never more than eight live permits. Every budget is within its limits (a type
/// invariant, which each of its methods states of the budget it leaves).
pub proof fn law_pending_is_sum_of_live_permits(budget: DesktopTransferBudget)
    requires
        budget.within_limits(),
    ensures
        budget.pending() == reserved_total(budget.live()),
        budget.active() == budget.live().len(),
        reserved_total(budget.live()) <= DESKTOP_TRANSFER_MAX_PENDING_BYTES,
        budget.live().len() <= DESKTOP_TRANSFER_MAX_ACTIVE,
{
}

/// Releasing a permit right after acquiring it leaves the budget's ledger and counts as they
/// were.
pub proof fn law_release_undoes_acquire(live: Seq<(nat, nat)>, id: nat)
    ensures
        live.push((id, 0nat)).remove(live.len() as int) == live,
        reserved_total(live.push((id, 0nat))) == reserved_total(live),
{
    assert(live.push((id, 0nat)).remove(live.len() as int) =~= live);
    assert(live.push((id, 0nat)).drop_last() =~= live);
}

/// Every byte a permit reserves is given back when it is released: removing its entry takes
/// exactly its reservation off the total.
pub proof fn law_release_returns_reservation(live: Seq<(nat, nat)>, i: int)
    requires
        0 <= i < live.len(),
    ensures
        reserved_total(live.remove(i)) + live[i].1 == reserved_total(live),
{
    lemma_total_remove(live, i);
}

/// Once a transfer is stale it stays stale as time goes on.
pub proof fn law_staleness_is_permanent(last_activity: u128, now: u128, later: u128)
    requires
        now <= later,
        now >= last_activity && now - last_activity >= DESKTOP_TRANSFER_IDLE_TIMEOUT_NANOS,
    ensures
        later >= last_activity && later - last_activity >= DESKTOP_TRANSFER_IDLE_TIMEOUT_NANOS,
{
}

/// The Base64 length allowance covers every payload of `max_decoded_bytes` bytes: four
/// characters for every started group of three.
pub proof fn law_base64_allowance(max_decoded_bytes: usize)
    requires
        (max_decoded_bytes + 2) / 3 * 4 <= usize::MAX,
    ensures
        max_base64_len(max_decoded_bytes) * 3 >= max_decoded_bytes * 4,
        max_base64_len(max_decoded_bytes) < max_decoded_bytes * 4 / 3 + 4 + 1,
{
    assert(((max_decoded_bytes + 2) / 3 * 4) * 3 >= max_decoded_bytes * 4) by (nonlinear_arith);
    assert((max_decoded_bytes + 2) / 3 * 4 < max_decoded_bytes * 4 / 3 + 5) by (nonlinear_arith);
}

} // verus!
