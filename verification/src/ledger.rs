//! The in-memory ledger: every record ever created, keyed by its
//! identifier, together with the allocator counter and the log of
//! notifications owed to observers. Each public operation authenticates
//! against plain caller identities, loads the record, runs the state
//! machine, persists the result and appends exactly one event — or fails
//! without touching anything.

use vstd::prelude::*;

use crate::types::ContractView;
use crate::types::Error;
use crate::types::FreightContract;
use crate::types::Identity;
use crate::types::record_wf;
use crate::transition::accept_err;
use crate::transition::accept_next;
use crate::transition::accept_ok;
use crate::transition::accept_record;
use crate::transition::fresh_record;
use crate::transition::fund_err;
use crate::transition::fund_next;
use crate::transition::fund_ok;
use crate::transition::log_telemetry_record;
use crate::transition::mark_funded_record;
use crate::transition::new_record;
use crate::transition::payout;
use crate::transition::pod_err;
use crate::transition::pod_next;
use crate::transition::pod_ok;
use crate::transition::settle_err;
use crate::transition::settle_next;
use crate::transition::settle_ok;
use crate::transition::settle_record;
use crate::transition::start_err;
use crate::transition::start_next;
use crate::transition::start_ok;
use crate::transition::start_trip_record;
use crate::transition::submit_pod_record;
use crate::transition::tel_next;
use crate::transition::tel_ok;

verus! {

/// One typed notification per successful state-changing operation. The
/// ledger appends them here; transporting them to observers is the host
/// shell's business.
#[derive(Clone, Copy, Debug, PartialEq, Eq, Structural)]
pub enum Event {
    Created { id: u128 },
    Accepted { id: u128 },
    Funded { id: u128 },
    Started { id: u128 },
    Telemetry { id: u128, add_secs: u32, add_km: u32 },
    Delivered { id: u128 },
    Settled { id: u128, pay: i128 },
}

/// Ghost image of the whole ledger.
pub ghost struct LedgerView {
    /// The last identifier the allocator handed out.
    pub next: u128,
    /// Record with id `k` lives at position `k - 1`; records are never
    /// removed.
    pub contracts: Seq<ContractView>,
    /// Every notification emitted so far, oldest first.
    pub events: Seq<Event>,
}

/// Whether `id` names a record of the ledger.
pub open spec fn has_contract(lv: LedgerView, id: u128) -> bool {
    1 <= id && id as int <= lv.contracts.len()
}

/// The record `id` names.
pub open spec fn rec_of(lv: LedgerView, id: u128) -> ContractView {
    lv.contracts[id as int - 1]
}

/// What a reader sees for `id`: the stored record, or nothing.
pub open spec fn lookup(lv: LedgerView, id: u128) -> Option<ContractView> {
    if has_contract(lv, id) {
        Some(rec_of(lv, id))
    } else {
        None
    }
}

/// Ledger well-formedness: the allocator counter equals the number of
/// records, ids are exactly the positions shifted by one, and every
/// record at rest is well formed.
pub open spec fn ledger_wf(lv: LedgerView) -> bool {
    &&& lv.next == lv.contracts.len()
    &&& forall|i: int| 0 <= i < lv.contracts.len() ==> (#[trigger] lv.contracts[i]).id == i + 1
    &&& forall|i: int| 0 <= i < lv.contracts.len() ==> record_wf(#[trigger] lv.contracts[i])
}

/// The identifier `create_contract` assigns next: one past the count of
/// records ever created.
pub open spec fn next_assigned_id(pre: LedgerView) -> u128 {
    (pre.contracts.len() + 1) as u128
}

/// One successful mutation of an existing record: the stored value is
/// replaced, exactly one event is appended, and nothing else moves.
pub open spec fn writes_record(pre: LedgerView, post: LedgerView, id: u128, c: ContractView, ev: Event) -> bool {
    &&& has_contract(pre, id)
    &&& post.contracts == pre.contracts.update(id as int - 1, c)
    &&& post.events == pre.events.push(ev)
    &&& post.next == pre.next
}

/// Everything `create_contract` promises: the fresh record is appended
/// under the next identifier, one `Created` event is emitted, and the
/// assigned identifier is returned.
pub open spec fn created_outcome(
    pre: LedgerView,
    post: LedgerView,
    c: ContractView,
    r: Result<u128, Error>,
) -> bool {
    &&& r == Ok::<u128, Error>(next_assigned_id(pre))
    &&& c.id == next_assigned_id(pre)
    &&& post.contracts == pre.contracts.push(c)
    &&& post.events == pre.events.push(Event::Created { id: next_assigned_id(pre) })
    &&& post.next == pre.next + 1
}

/// Everything `accept` promises, success and failure alike.
pub open spec fn accept_outcome(
    pre: LedgerView,
    post: LedgerView,
    id: u128,
    caller: Seq<u8>,
    r: Result<(), Error>,
) -> bool {
    if !has_contract(pre, id) {
        r == Err::<(), Error>(Error::NotFound) && post == pre
    } else {
        let c = rec_of(pre, id);
        match r {
            Ok(_) => accept_ok(c, caller)
                && writes_record(pre, post, id, accept_next(c), Event::Accepted { id }),
            Err(e) => !accept_ok(c, caller) && e == accept_err(c, caller) && post == pre,
        }
    }
}

/// Everything `mark_funded` promises, success and failure alike.
pub open spec fn funded_outcome(
    pre: LedgerView,
    post: LedgerView,
    id: u128,
    caller: Seq<u8>,
    r: Result<(), Error>,
) -> bool {
    if !has_contract(pre, id) {
        r == Err::<(), Error>(Error::NotFound) && post == pre
    } else {
        let c = rec_of(pre, id);
        match r {
            Ok(_) => fund_ok(c, caller)
                && writes_record(pre, post, id, fund_next(c), Event::Funded { id }),
            Err(e) => !fund_ok(c, caller) && e == fund_err(c, caller) && post == pre,
        }
    }
}

/// Everything `start_trip` promises, success and failure alike.
pub open spec fn started_outcome(
    pre: LedgerView,
    post: LedgerView,
    id: u128,
    caller: Seq<u8>,
    r: Result<(), Error>,
) -> bool {
    if !has_contract(pre, id) {
        r == Err::<(), Error>(Error::NotFound) && post == pre
    } else {
        let c = rec_of(pre, id);
        match r {
            Ok(_) => start_ok(c, caller)
                && writes_record(pre, post, id, start_next(c), Event::Started { id }),
            Err(e) => !start_ok(c, caller) && e == start_err(c, caller) && post == pre,
        }
    }
}

/// Everything `log_telemetry` promises, success and failure alike.
pub open spec fn telemetry_outcome(
    pre: LedgerView,
    post: LedgerView,
    id: u128,
    add_secs: u32,
    add_km: u32,
    add_cost: i128,
    r: Result<(), Error>,
) -> bool {
    if !has_contract(pre, id) {
        r == Err::<(), Error>(Error::NotFound) && post == pre
    } else {
        let c = rec_of(pre, id);
        match r {
            Ok(_) => tel_ok(c) && writes_record(
                pre,
                post,
                id,
                tel_next(c, add_secs, add_km, add_cost),
                Event::Telemetry { id, add_secs, add_km },
            ),
            Err(e) => !tel_ok(c) && e == Error::BadState && post == pre,
        }
    }
}

/// Everything `submit_pod` promises, success and failure alike.
pub open spec fn pod_outcome(
    pre: LedgerView,
    post: LedgerView,
    id: u128,
    pod_hash: Seq<u8>,
    caller: Seq<u8>,
    r: Result<(), Error>,
) -> bool {
    if !has_contract(pre, id) {
        r == Err::<(), Error>(Error::NotFound) && post == pre
    } else {
        let c = rec_of(pre, id);
        match r {
            Ok(_) => pod_ok(c, caller)
                && writes_record(pre, post, id, pod_next(c, pod_hash), Event::Delivered { id }),
            Err(e) => !pod_ok(c, caller) && e == pod_err(c, caller) && post == pre,
        }
    }
}

/// Everything `evaluate_and_settle` promises, success and failure alike:
/// on success the returned amount is the deadline-determined payout, it
/// is recorded as `last_paid`, and one `Settled` event carries it.
pub open spec fn settled_outcome(
    pre: LedgerView,
    post: LedgerView,
    id: u128,
    now: u64,
    r: Result<i128, Error>,
) -> bool {
    if !has_contract(pre, id) {
        r == Err::<i128, Error>(Error::NotFound) && post == pre
    } else {
        let c = rec_of(pre, id);
        match r {
            Ok(pay) => settle_ok(c) && pay == payout(c.price, c.deadline_unix, now)
                && writes_record(pre, post, id, settle_next(c, now), Event::Settled { id, pay }),
            Err(e) => !settle_ok(c) && e == settle_err(c) && post == pre,
        }
    }
}

/// Replacing one well-formed record by another that keeps its identifier
/// preserves ledger well-formedness.
pub(crate) proof fn lemma_wf_update(pre: LedgerView, post: LedgerView, id: u128, c: ContractView)
    requires
        ledger_wf(pre),
        has_contract(pre, id),
        post.contracts == pre.contracts.update(id as int - 1, c),
        post.next == pre.next,
        c.id == id,
        record_wf(c),
    ensures
        ledger_wf(post),
{
    assert forall|j: int| 0 <= j < post.contracts.len() implies (#[trigger] post.contracts[j]).id
        == j + 1 by {
        if j != id as int - 1 {
            assert(post.contracts[j] == pre.contracts[j]);
        }
    }
    assert forall|j: int| 0 <= j < post.contracts.len() implies record_wf(
        #[trigger] post.contracts[j],
    ) by {
        if j != id as int - 1 {
            assert(post.contracts[j] == pre.contracts[j]);
        }
    }
}

/// Appending a well-formed record under the next identifier preserves
/// ledger well-formedness.
pub(crate) proof fn lemma_wf_push(pre: LedgerView, post: LedgerView, c: ContractView)
    requires
        ledger_wf(pre),
        post.contracts == pre.contracts.push(c),
        post.next == pre.next + 1,
        c.id == next_assigned_id(pre),
        pre.contracts.len() + 1 <= u128::MAX,
        record_wf(c),
    ensures
        ledger_wf(post),
{
    assert forall|j: int| 0 <= j < post.contracts.len() implies (#[trigger] post.contracts[j]).id
        == j + 1 by {
        if j < pre.contracts.len() {
            assert(post.contracts[j] == pre.contracts[j]);
        }
    }
    assert forall|j: int| 0 <= j < post.contracts.len() implies record_wf(
        #[trigger] post.contracts[j],
    ) by {
        if j < pre.contracts.len() {
            assert(post.contracts[j] == pre.contracts[j]);
        }
    }
}

/// The shared, append-only ledger of freight agreements.
pub struct RoadFreight {
    next: u128,
    contracts: Vec<FreightContract>,
    events: Vec<Event>,
}

impl View for RoadFreight {
    type V = LedgerView;

    closed spec fn view(&self) -> LedgerView {
        LedgerView {
            next: self.next,
            contracts: self.contracts@.map_values(|fc: FreightContract| fc@),
            events: self.events@,
        }
    }
}

impl RoadFreight {
    pub open spec fn wf(self) -> bool {
        ledger_wf(self@)
    }

    /// An empty ledger: no records, no events, counter at zero.
    pub fn new() -> (r: RoadFreight)
        ensures
            r.wf(),
            r@.contracts.len() == 0,
            r@.events.len() == 0,
            r@.next == 0,
    {
        RoadFreight { next: 0, contracts: Vec::new(), events: Vec::new() }
    }

    /// The notifications emitted so far, oldest first.
    pub fn events(&self) -> (r: &Vec<Event>)
        ensures
            r@ == self@.events,
    {
        &self.events
    }

    /// The identifier allocator: reads the counter, increments it by one,
    /// persists the new value and returns it.
    fn next_id(&mut self) -> (id: u128)
        requires
            old(self).next < u128::MAX,
        ensures
            id == old(self).next + 1,
            final(self).next == id,
            final(self).contracts == old(self).contracts,
            final(self).events == old(self).events,
    {
        let id = self.next + 1;
        self.next = id;
        id
    }

    /// Creates a new agreement in status `Draft` under a freshly
    /// allocated identifier and emits one `Created` event. The host has
    /// already authenticated the shipper: creation itself never fails.
    pub fn create_contract(
        &mut self,
        shipper: Identity,
        carrier: Identity,
        origin: String,
        destination: String,
        token: Identity,
        price: i128,
        deadline_unix: u64,
        doc_hash: [u8; 32],
        now: u64,
    ) -> (r: Result<u128, Error>)
        requires
            old(self).wf(),
        ensures
            final(self).wf(),
            created_outcome(
                old(self)@,
                final(self)@,
                fresh_record(
                    next_assigned_id(old(self)@),
                    shipper@,
                    carrier@,
                    origin@,
                    destination@,
                    token@,
                    price,
                    deadline_unix,
                    doc_hash@,
                    now,
                ),
                r,
            ),
    {
        let n = self.contracts.len();
        proof {
            assert(self.next == n as u128);
        }
        let id = self.next_id();
        let fc = new_record(
            id,
            shipper,
            carrier,
            origin,
            destination,
            token,
            price,
            deadline_unix,
            doc_hash,
            now,
        );
        let ghost pre = old(self)@;
        let ghost c = fc@;
        self.contracts.push(fc);
        self.events.push(Event::Created { id });
        proof {
            assert(self@.contracts =~= pre.contracts.push(c));
            lemma_wf_push(pre, self@, c);
        }
        Ok(id)
    }

    /// The carrier accepts the draft agreement named by `id`: its status
    /// becomes `Active` and one `Accepted` event is emitted.
    pub fn accept(&mut self, id: u128, carrier: Identity) -> (r: Result<(), Error>)
        requires
            old(self).wf(),
        ensures
            final(self).wf(),
            accept_outcome(old(self)@, final(self)@, id, carrier@, r),
    {
        let n = self.contracts.len();
        if id == 0 || id > n as u128 {
            return Err(Error::NotFound);
        }
        let i: usize = (id - 1) as usize;
        let mut fc = self.contracts[i].clone();
        proof {
            assert(fc@ == rec_of(old(self)@, id));
        }
        match accept_record(&mut fc, &carrier) {
            Ok(_) => {
                let ghost pre = old(self)@;
                let ghost c = fc@;
                self.contracts[i] = fc;
                self.events.push(Event::Accepted { id });
                proof {
                    assert(self@.contracts =~= pre.contracts.update(id as int - 1, c));
                    lemma_wf_update(pre, self@, id, c);
                }
                Ok(())
            },
            Err(e) => Err(e),
        }
    }

    /// The shipper marks the escrow funded on the active agreement named
    /// by `id` and one `Funded` event is emitted; the status stays
    /// `Active`.
    pub fn mark_funded(&mut self, id: u128, shipper: Identity) -> (r: Result<(), Error>)
        requires
            old(self).wf(),
        ensures
            final(self).wf(),
            funded_outcome(old(self)@, final(self)@, id, shipper@, r),
    {
        let n = self.contracts.len();
        if id == 0 || id > n as u128 {
            return Err(Error::NotFound);
        }
        let i: usize = (id - 1) as usize;
        let mut fc = self.contracts[i].clone();
        proof {
            assert(fc@ == rec_of(old(self)@, id));
        }
        match mark_funded_record(&mut fc, &shipper) {
            Ok(_) => {
                let ghost pre = old(self)@;
                let ghost c = fc@;
                self.contracts[i] = fc;
                self.events.push(Event::Funded { id });
                proof {
                    assert(self@.contracts =~= pre.contracts.update(id as int - 1, c));
                    lemma_wf_update(pre, self@, id, c);
                }
                Ok(())
            },
            Err(e) => Err(e),
        }
    }

    /// Either party starts the trip on the funded, active agreement named
    /// by `id`: its status becomes `InTransit` and one `Started` event is
    /// emitted.
    pub fn start_trip(&mut self, id: u128, caller: Identity) -> (r: Result<(), Error>)
        requires
            old(self).wf(),
        ensures
            final(self).wf(),
            started_outcome(old(self)@, final(self)@, id, caller@, r),
    {
        let n = self.contracts.len();
        if id == 0 || id > n as u128 {
            return Err(Error::NotFound);
        }
        let i: usize = (id - 1) as usize;
        let mut fc = self.contracts[i].clone();
        proof {
            assert(fc@ == rec_of(old(self)@, id));
        }
        match start_trip_record(&mut fc, &caller) {
            Ok(_) => {
                let ghost pre = old(self)@;
                let ghost c = fc@;
                self.contracts[i] = fc;
                self.events.push(Event::Started { id });
                proof {
                    assert(self@.contracts =~= pre.contracts.update(id as int - 1, c));
                    lemma_wf_update(pre, self@, id, c);
                }
                Ok(())
            },
            Err(e) => Err(e),
        }
    }

    /// An authorized reporter logs one telemetry increment against the
    /// in-transit agreement named by `id`: the accumulators grow by the
    /// deltas, clamped at the representable maximum, and one `Telemetry`
    /// event is emitted. The accumulators never decrease, so the cost
    /// delta must be non-negative. The reporter's signature is the host's
    /// concern; its identity plays no further part.
    pub fn log_telemetry(
        &mut self,
        id: u128,
        add_secs: u32,
        add_km: u32,
        add_cost: i128,
        oracle: Identity,
    ) -> (r: Result<(), Error>)
        requires
            old(self).wf(),
            add_cost >= 0,
        ensures
            final(self).wf(),
            telemetry_outcome(old(self)@, final(self)@, id, add_secs, add_km, add_cost, r),
    {
        let _ = oracle;
        let n = self.contracts.len();
        if id == 0 || id > n as u128 {
            return Err(Error::NotFound);
        }
        let i: usize = (id - 1) as usize;
        let mut fc = self.contracts[i].clone();
        proof {
            assert(fc@ == rec_of(old(self)@, id));
        }
        match log_telemetry_record(&mut fc, add_secs, add_km, add_cost) {
            Ok(_) => {
                let ghost pre = old(self)@;
                let ghost c = fc@;
                self.contracts[i] = fc;
                self.events.push(Event::Telemetry { id, add_secs, add_km });
                proof {
                    assert(self@.contracts =~= pre.contracts.update(id as int - 1, c));
                    lemma_wf_update(pre, self@, id, c);
                }
                Ok(())
            },
            Err(e) => Err(e),
        }
    }

    /// Either party submits the proof-of-delivery digest for the
    /// in-transit agreement named by `id`: the document hash is
    /// overwritten, the status becomes `Delivered` and one `Delivered`
    /// event is emitted.
    pub fn submit_pod(&mut self, id: u128, pod_hash: [u8; 32], caller: Identity) -> (r: Result<
        (),
        Error,
    >)
        requires
            old(self).wf(),
        ensures
            final(self).wf(),
            pod_outcome(old(self)@, final(self)@, id, pod_hash@, caller@, r),
    {
        let n = self.contracts.len();
        if id == 0 || id > n as u128 {
            return Err(Error::NotFound);
        }
        let i: usize = (id - 1) as usize;
        let mut fc = self.contracts[i].clone();
        proof {
            assert(fc@ == rec_of(old(self)@, id));
        }
        match submit_pod_record(&mut fc, pod_hash, &caller) {
            Ok(_) => {
                let ghost pre = old(self)@;
                let ghost c = fc@;
                self.contracts[i] = fc;
                self.events.push(Event::Delivered { id });
                proof {
                    assert(self@.contracts =~= pre.contracts.update(id as int - 1, c));
                    lemma_wf_update(pre, self@, id, c);
                }
                Ok(())
            },
            Err(e) => Err(e),
        }
    }

    /// Any authenticated invoker settles the delivered, funded agreement
    /// named by `id` at ledger time `now`: the deadline-determined payout
    /// is returned, recorded as `last_paid`, the status becomes `Settled`
    /// and one `Settled` event carries the amount. The timestamp is
    /// sampled at settlement, not at delivery.
    pub fn evaluate_and_settle(&mut self, id: u128, invoker: Identity, now: u64) -> (r: Result<
        i128,
        Error,
    >)
        requires
            old(self).wf(),
        ensures
            final(self).wf(),
            settled_outcome(old(self)@, final(self)@, id, now, r),
    {
        let _ = invoker;
        let n = self.contracts.len();
        if id == 0 || id > n as u128 {
            return Err(Error::NotFound);
        }
        let i: usize = (id - 1) as usize;
        let mut fc = self.contracts[i].clone();
        proof {
            assert(fc@ == rec_of(old(self)@, id));
        }
        match settle_record(&mut fc, now) {
            Ok(pay) => {
                let ghost pre = old(self)@;
                let ghost c = fc@;
                self.contracts[i] = fc;
                self.events.push(Event::Settled { id, pay });
                proof {
                    assert(self@.contracts =~= pre.contracts.update(id as int - 1, c));
                    lemma_wf_update(pre, self@, id, c);
                }
                Ok(pay)
            },
            Err(e) => Err(e),
        }
    }

    /// Pure read: the record named by `id`, exactly as stored.
    pub fn get_contract(&self, id: u128) -> (r: Result<FreightContract, Error>)
        requires
            self.wf(),
        ensures
            match r {
                Ok(fc) => lookup(self@, id) == Some(fc@),
                Err(e) => lookup(self@, id) is None && e == Error::NotFound,
            },
    {
        let n = self.contracts.len();
        if id == 0 || id > n as u128 {
            return Err(Error::NotFound);
        }
        let i: usize = (id - 1) as usize;
        Ok(self.contracts[i].clone())
    }
}

} // verus!
