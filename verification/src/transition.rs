//! The contract state machine: for each operation, the predicate saying
//! when it succeeds, the exact error it returns otherwise, the record it
//! produces on success, and the verified executable transition.
//!
//! Every transition takes the authenticated caller identity (and, where
//! the operation needs it, the current ledger timestamp) as a plain value:
//! signature verification and the clock are the host's collaborators.

use vstd::prelude::*;

use crate::types::ContractView;
use crate::types::Error;
use crate::types::FreightContract;
use crate::types::Identity;
use crate::types::Status;
use crate::types::record_wf;

verus! {

/// Whether `caller` is one of the two parties to the agreement.
pub open spec fn is_party(c: ContractView, caller: Seq<u8>) -> bool {
    caller == c.shipper || caller == c.carrier
}

/// Saturating addition on the cost accumulator: clamped at the
/// representable extremes, never wrapping.
pub open spec fn sat_add_i128(a: i128, b: i128) -> i128 {
    if a + b > i128::MAX {
        i128::MAX
    } else if a + b < i128::MIN {
        i128::MIN
    } else {
        (a + b) as i128
    }
}

/// Exactly half of `p`, truncating toward zero and discarding the
/// remainder, as the settlement rule demands for late delivery.
pub open spec fn half_toward_zero(p: i128) -> int {
    if p >= 0 {
        p as int / 2
    } else {
        -((-(p as int)) / 2)
    }
}

/// The amount disbursed when settlement is invoked at ledger time `now`:
/// the full agreed price on or before the deadline, half of it after.
pub open spec fn payout(price: i128, deadline_unix: u64, now: u64) -> int {
    if now <= deadline_unix {
        price as int
    } else {
        half_toward_zero(price)
    }
}

/// The record as `create_contract` populates it.
pub open spec fn fresh_record(
    id: u128,
    shipper: Seq<u8>,
    carrier: Seq<u8>,
    origin: Seq<char>,
    destination: Seq<char>,
    token: Seq<u8>,
    price: i128,
    deadline_unix: u64,
    doc_hash: Seq<u8>,
    now: u64,
) -> ContractView {
    ContractView {
        id,
        shipper,
        carrier,
        origin,
        destination,
        token,
        price,
        deadline_unix,
        doc_hash,
        status: Status::Draft,
        created_at: now,
        escrow_funded: false,
        total_secs: 0,
        total_km: 0,
        computed_cost: 0,
        last_paid: 0,
    }
}

/// `accept` succeeds exactly when the caller is the record's carrier and
/// the record is still a draft.
pub open spec fn accept_ok(c: ContractView, caller: Seq<u8>) -> bool {
    caller == c.carrier && c.status == Status::Draft
}

/// The error `accept` returns when it fails: the role check comes first.
pub open spec fn accept_err(c: ContractView, caller: Seq<u8>) -> Error {
    if caller != c.carrier {
        Error::Unauthorized
    } else {
        Error::BadState
    }
}

pub open spec fn accept_next(c: ContractView) -> ContractView {
    ContractView { status: Status::Active, ..c }
}

/// `mark_funded` succeeds exactly when the caller is the record's shipper
/// and the record is active.
pub open spec fn fund_ok(c: ContractView, caller: Seq<u8>) -> bool {
    caller == c.shipper && c.status == Status::Active
}

pub open spec fn fund_err(c: ContractView, caller: Seq<u8>) -> Error {
    if caller != c.shipper {
        Error::Unauthorized
    } else {
        Error::BadState
    }
}

pub open spec fn fund_next(c: ContractView) -> ContractView {
    ContractView { escrow_funded: true, ..c }
}

/// `start_trip` succeeds exactly when the caller is a party, the record
/// is active, and the escrow has been funded.
pub open spec fn start_ok(c: ContractView, caller: Seq<u8>) -> bool {
    is_party(c, caller) && c.status == Status::Active && c.escrow_funded
}

pub open spec fn start_err(c: ContractView, caller: Seq<u8>) -> Error {
    if !is_party(c, caller) {
        Error::Unauthorized
    } else if c.status != Status::Active {
        Error::BadState
    } else {
        Error::EscrowNotFunded
    }
}

pub open spec fn start_next(c: ContractView) -> ContractView {
    ContractView { status: Status::InTransit, ..c }
}

/// `log_telemetry` succeeds exactly when the record is in transit; the
/// reporting oracle's signature is the host's concern, not a role bound
/// to the record.
pub open spec fn tel_ok(c: ContractView) -> bool {
    c.status == Status::InTransit
}

pub open spec fn tel_next(c: ContractView, add_secs: u32, add_km: u32, add_cost: i128) -> ContractView {
    ContractView {
        total_secs: c.total_secs.saturating_add(add_secs as u64),
        total_km: c.total_km.saturating_add(add_km),
        computed_cost: sat_add_i128(c.computed_cost, add_cost),
        ..c
    }
}

/// `submit_pod` succeeds exactly when the caller is a party and the
/// record is in transit.
pub open spec fn pod_ok(c: ContractView, caller: Seq<u8>) -> bool {
    is_party(c, caller) && c.status == Status::InTransit
}

pub open spec fn pod_err(c: ContractView, caller: Seq<u8>) -> Error {
    if !is_party(c, caller) {
        Error::Unauthorized
    } else {
        Error::BadState
    }
}

pub open spec fn pod_next(c: ContractView, pod_hash: Seq<u8>) -> ContractView {
    ContractView { doc_hash: pod_hash, status: Status::Delivered, ..c }
}

/// `evaluate_and_settle` succeeds exactly when the record is delivered
/// and the escrow has been funded; any authenticated invoker may settle.
pub open spec fn settle_ok(c: ContractView) -> bool {
    c.status == Status::Delivered && c.escrow_funded
}

pub open spec fn settle_err(c: ContractView) -> Error {
    if c.status != Status::Delivered {
        Error::BadState
    } else {
        Error::EscrowNotFunded
    }
}

pub open spec fn settle_next(c: ContractView, now: u64) -> ContractView {
    ContractView { status: Status::Settled, last_paid: payout(c.price, c.deadline_unix, now) as i128, ..c }
}

/// Builds the record `create_contract` persists: every immutable field
/// populated from the arguments, status `Draft`, escrow unfunded, all
/// accumulators zero.
pub fn new_record(
    id: u128,
    shipper: Identity,
    carrier: Identity,
    origin: String,
    destination: String,
    token: Identity,
    price: i128,
    deadline_unix: u64,
    doc_hash: [u8; 32],
    now: u64,
) -> (r: FreightContract)
    ensures
        r@ == fresh_record(id, shipper@, carrier@, origin@, destination@, token@, price, deadline_unix, doc_hash@, now),
        record_wf(r@),
{
    FreightContract {
        id,
        shipper,
        carrier,
        origin,
        destination,
        token,
        price,
        deadline_unix,
        doc_hash,
        status: Status::Draft,
        created_at: now,
        escrow_funded: false,
        total_secs: 0,
        total_km: 0,
        computed_cost: 0,
        last_paid: 0,
    }
}

/// Carrier accepts the draft agreement: `Draft` becomes `Active`.
pub fn accept_record(fc: &mut FreightContract, caller: &Identity) -> (r: Result<(), Error>)
    ensures
        match r {
            Ok(_) => accept_ok(old(fc)@, caller@) && final(fc)@ == accept_next(old(fc)@),
            Err(e) => !accept_ok(old(fc)@, caller@) && final(fc)@ == old(fc)@
                && e == accept_err(old(fc)@, caller@),
        },
        record_wf(old(fc)@) ==> record_wf(final(fc)@),
{
    if !caller.same_as(&fc.carrier) {
        return Err(Error::Unauthorized);
    }
    if fc.status != Status::Draft {
        return Err(Error::BadState);
    }
    fc.status = Status::Active;
    Ok(())
}

/// Shipper marks the escrow funded: the status stays `Active`.
pub fn mark_funded_record(fc: &mut FreightContract, caller: &Identity) -> (r: Result<(), Error>)
    ensures
        match r {
            Ok(_) => fund_ok(old(fc)@, caller@) && final(fc)@ == fund_next(old(fc)@),
            Err(e) => !fund_ok(old(fc)@, caller@) && final(fc)@ == old(fc)@
                && e == fund_err(old(fc)@, caller@),
        },
        record_wf(old(fc)@) ==> record_wf(final(fc)@),
{
    if !caller.same_as(&fc.shipper) {
        return Err(Error::Unauthorized);
    }
    if fc.status != Status::Active {
        return Err(Error::BadState);
    }
    fc.escrow_funded = true;
    Ok(())
}

/// Either party starts the trip on a funded, active record: `Active`
/// becomes `InTransit`.
pub fn start_trip_record(fc: &mut FreightContract, caller: &Identity) -> (r: Result<(), Error>)
    ensures
        match r {
            Ok(_) => start_ok(old(fc)@, caller@) && final(fc)@ == start_next(old(fc)@),
            Err(e) => !start_ok(old(fc)@, caller@) && final(fc)@ == old(fc)@
                && e == start_err(old(fc)@, caller@),
        },
        record_wf(old(fc)@) ==> record_wf(final(fc)@),
{
    if !(caller.same_as(&fc.shipper) || caller.same_as(&fc.carrier)) {
        return Err(Error::Unauthorized);
    }
    if fc.status != Status::Active {
        return Err(Error::BadState);
    }
    if !fc.escrow_funded {
        return Err(Error::EscrowNotFunded);
    }
    fc.status = Status::InTransit;
    Ok(())
}

/// Adds one telemetry report to the accumulators, clamped at the
/// representable maximum, never wrapping. The accumulators are
/// monotonically non-decreasing, so the cost delta must be non-negative.
pub fn log_telemetry_record(
    fc: &mut FreightContract,
    add_secs: u32,
    add_km: u32,
    add_cost: i128,
) -> (r: Result<(), Error>)
    requires
        add_cost >= 0,
    ensures
        match r {
            Ok(_) => tel_ok(old(fc)@) && final(fc)@ == tel_next(old(fc)@, add_secs, add_km, add_cost),
            Err(e) => !tel_ok(old(fc)@) && final(fc)@ == old(fc)@ && e == Error::BadState,
        },
        record_wf(old(fc)@) ==> record_wf(final(fc)@),
{
    if fc.status != Status::InTransit {
        return Err(Error::BadState);
    }
    fc.total_secs = fc.total_secs.saturating_add(add_secs as u64);
    fc.total_km = fc.total_km.saturating_add(add_km);
    fc.computed_cost = saturating_add_i128(fc.computed_cost, add_cost);
    Ok(())
}

/// Either party submits the proof-of-delivery digest: the document hash
/// is overwritten and `InTransit` becomes `Delivered`.
pub fn submit_pod_record(fc: &mut FreightContract, pod_hash: [u8; 32], caller: &Identity) -> (r: Result<(), Error>)
    ensures
        match r {
            Ok(_) => pod_ok(old(fc)@, caller@) && final(fc)@ == pod_next(old(fc)@, pod_hash@),
            Err(e) => !pod_ok(old(fc)@, caller@) && final(fc)@ == old(fc)@
                && e == pod_err(old(fc)@, caller@),
        },
        record_wf(old(fc)@) ==> record_wf(final(fc)@),
{
    if !(caller.same_as(&fc.shipper) || caller.same_as(&fc.carrier)) {
        return Err(Error::Unauthorized);
    }
    if fc.status != Status::InTransit {
        return Err(Error::BadState);
    }
    fc.doc_hash = pod_hash;
    fc.status = Status::Delivered;
    Ok(())
}

/// Settles a delivered, funded record at ledger time `now`: the payout is
/// the full price on or before the deadline and half of it after, is
/// recorded as `last_paid`, and `Delivered` becomes `Settled`.
pub fn settle_record(fc: &mut FreightContract, now: u64) -> (r: Result<i128, Error>)
    ensures
        match r {
            Ok(pay) => settle_ok(old(fc)@) && final(fc)@ == settle_next(old(fc)@, now)
                && pay == payout(old(fc)@.price, old(fc)@.deadline_unix, now),
            Err(e) => !settle_ok(old(fc)@) && final(fc)@ == old(fc)@ && e == settle_err(old(fc)@),
        },
        record_wf(old(fc)@) ==> record_wf(final(fc)@),
{
    if fc.status != Status::Delivered {
        return Err(Error::BadState);
    }
    if !fc.escrow_funded {
        return Err(Error::EscrowNotFunded);
    }
    let pay: i128 = if now <= fc.deadline_unix {
        fc.price
    } else {
        half_price(fc.price)
    };
    fc.status = Status::Settled;
    fc.last_paid = pay;
    Ok(pay)
}

/// Half of `p`, truncating toward zero.
fn half_price(p: i128) -> (r: i128)
    ensures
        r == half_toward_zero(p),
{
    p / 2
}

/// Saturating addition on `i128`, clamped at the representable extremes.
fn saturating_add_i128(a: i128, b: i128) -> (r: i128)
    ensures
        r == sat_add_i128(a, b),
{
    if b >= 0 {
        if a > i128::MAX - b {
            i128::MAX
        } else {
            a + b
        }
    } else {
        if a < i128::MIN - b {
            i128::MIN
        } else {
            a + b
        }
    }
}

} // verus!
