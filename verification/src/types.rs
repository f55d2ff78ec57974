//! Data model: error kinds, the lifecycle status, party identities and the
//! persisted freight record, together with their ghost views and the
//! well-formedness predicate that every record at rest satisfies.

use vstd::prelude::*;

verus! {

/// Error kinds, all surfaced to the caller as typed, recoverable results.
#[derive(Clone, Copy, Debug, PartialEq, Eq, Structural)]
pub enum Error {
    /// The authenticated caller does not hold the role the operation requires.
    Unauthorized,
    /// The referenced contract id has no record.
    NotFound,
    /// The record exists but its status does not satisfy the operation's
    /// required prior state.
    BadState,
    /// The operation requires the escrow to be funded and it is not.
    EscrowNotFunded,
    /// Reserved for double-settlement protection. The current state graph
    /// cannot produce it: settlement itself moves the record out of
    /// `Delivered`, so a second attempt fails with `BadState` instead.
    AlreadySettled,
}

/// Lifecycle status of a freight record. Records only ever advance along
/// the total order `Draft, Active, InTransit, Delivered, Settled`.
#[derive(Clone, Copy, Debug, PartialEq, Eq, Structural)]
pub enum Status {
    Draft,
    Active,
    InTransit,
    Delivered,
    Settled,
}

/// Position of a status along the lifecycle chain.
pub open spec fn rank(s: Status) -> int {
    match s {
        Status::Draft => 0,
        Status::Active => 1,
        Status::InTransit => 2,
        Status::Delivered => 3,
        Status::Settled => 4,
    }
}

/// An opaque party identity handle: the byte string under which the
/// surrounding ledger knows a participant. The core compares identities
/// for equality and does nothing else with them; signature verification
/// belongs to the host shell.
pub struct Identity {
    pub bytes: Vec<u8>,
}

impl View for Identity {
    type V = Seq<u8>;

    open spec fn view(&self) -> Seq<u8> {
        self.bytes@
    }
}

impl Identity {
    /// Whether two identity handles name the same party.
    pub fn same_as(&self, other: &Identity) -> (r: bool)
        ensures
            r == (self@ == other@),
    {
        let r = self.bytes == other.bytes;
        proof {
            if r {
                assert(self.bytes@ =~= other.bytes@);
            }
        }
        r
    }
}

impl Clone for Identity {
    fn clone(&self) -> (r: Self)
        ensures
            r@ == self@,
    {
        let b = self.bytes.clone();
        proof {
            assert(b@ =~= self.bytes@);
        }
        Identity { bytes: b }
    }
}

/// The sole persisted entity: one freight agreement between a shipper and
/// a carrier, settled through an escrowed payment.
pub struct FreightContract {
    /// Globally unique, immutable after creation.
    pub id: u128,
    pub shipper: Identity,
    pub carrier: Identity,
    /// Free-text location descriptor, immutable.
    pub origin: String,
    /// Free-text location descriptor, immutable.
    pub destination: String,
    /// Identity of the payment-asset type, immutable.
    pub token: Identity,
    /// The agreed payment amount, immutable.
    pub price: i128,
    /// Settlement deadline, immutable.
    pub deadline_unix: u64,
    /// 32-byte content digest of a shipping document; overwritten exactly
    /// once, with the proof-of-delivery digest.
    pub doc_hash: [u8; 32],
    pub status: Status,
    /// Ledger timestamp captured at creation, immutable.
    pub created_at: u64,
    /// Set true exactly once, by the funding operation while `Active`.
    pub escrow_funded: bool,
    /// Saturating accumulator, mutated only by telemetry logging.
    pub total_secs: u64,
    /// Saturating accumulator, mutated only by telemetry logging.
    pub total_km: u32,
    /// Saturating accumulator, mutated only by telemetry logging.
    pub computed_cost: i128,
    /// Amount actually disbursed; set exactly once, at settlement.
    pub last_paid: i128,
}

/// Ghost image of a `FreightContract`: identities and text as sequences,
/// everything else as the plain value.
pub ghost struct ContractView {
    pub id: u128,
    pub shipper: Seq<u8>,
    pub carrier: Seq<u8>,
    pub origin: Seq<char>,
    pub destination: Seq<char>,
    pub token: Seq<u8>,
    pub price: i128,
    pub deadline_unix: u64,
    pub doc_hash: Seq<u8>,
    pub status: Status,
    pub created_at: u64,
    pub escrow_funded: bool,
    pub total_secs: u64,
    pub total_km: u32,
    pub computed_cost: i128,
    pub last_paid: i128,
}

impl View for FreightContract {
    type V = ContractView;

    open spec fn view(&self) -> ContractView {
        ContractView {
            id: self.id,
            shipper: self.shipper@,
            carrier: self.carrier@,
            origin: self.origin@,
            destination: self.destination@,
            token: self.token@,
            price: self.price,
            deadline_unix: self.deadline_unix,
            doc_hash: self.doc_hash@,
            status: self.status,
            created_at: self.created_at,
            escrow_funded: self.escrow_funded,
            total_secs: self.total_secs,
            total_km: self.total_km,
            computed_cost: self.computed_cost,
            last_paid: self.last_paid,
        }
    }
}

impl Clone for FreightContract {
    fn clone(&self) -> (r: Self)
        ensures
            r@ == self@,
    {
        FreightContract {
            id: self.id,
            shipper: self.shipper.clone(),
            carrier: self.carrier.clone(),
            origin: self.origin.clone(),
            destination: self.destination.clone(),
            token: self.token.clone(),
            price: self.price,
            deadline_unix: self.deadline_unix,
            doc_hash: self.doc_hash,
            status: self.status,
            created_at: self.created_at,
            escrow_funded: self.escrow_funded,
            total_secs: self.total_secs,
            total_km: self.total_km,
            computed_cost: self.computed_cost,
            last_paid: self.last_paid,
        }
    }
}

/// What holds of every record at rest, whatever operations produced it:
/// the document digest is 32 bytes; nothing has been disbursed before
/// settlement; a record in transit or beyond has its escrow funded, a
/// draft never has; and the telemetry accumulators are untouched until
/// the trip starts.
pub open spec fn record_wf(c: ContractView) -> bool {
    &&& c.doc_hash.len() == 32
    &&& c.status != Status::Settled ==> c.last_paid == 0
    &&& rank(c.status) >= 2 ==> c.escrow_funded
    &&& c.status == Status::Draft ==> !c.escrow_funded
    &&& rank(c.status) < 2 ==> c.total_secs == 0 && c.total_km == 0 && c.computed_cost == 0
}

} // verus!
