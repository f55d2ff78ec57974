//! System-wide laws, proved once and for all over the same predicates the
//! operations' contracts are stated with: a single step of any operation,
//! traces of steps, and what they preserve.

use vstd::prelude::*;

use crate::types::ContractView;
use crate::types::Error;
use crate::types::Status;
use crate::types::rank;
use crate::types::record_wf;
use crate::transition::accept_next;
use crate::transition::accept_ok;
use crate::transition::fund_next;
use crate::transition::fund_ok;
use crate::transition::half_toward_zero;
use crate::transition::is_party;
use crate::transition::payout;
use crate::transition::pod_next;
use crate::transition::pod_ok;
use crate::transition::settle_next;
use crate::transition::settle_ok;
use crate::transition::start_next;
use crate::transition::start_ok;
use crate::transition::tel_next;
use crate::transition::tel_ok;
use crate::ledger::Event;
use crate::ledger::LedgerView;
use crate::ledger::accept_outcome;
use crate::ledger::created_outcome;
use crate::ledger::funded_outcome;
use crate::ledger::has_contract;
use crate::ledger::ledger_wf;
use crate::ledger::lookup;
use crate::ledger::next_assigned_id;
use crate::ledger::pod_outcome;
use crate::ledger::rec_of;
use crate::ledger::settled_outcome;
use crate::ledger::started_outcome;
use crate::ledger::telemetry_outcome;
use crate::ledger::writes_record;

verus! {

/// One successful transition of a single record by any operation.
pub open spec fn record_step(c: ContractView, d: ContractView) -> bool {
    ||| (exists|caller: Seq<u8>| #[trigger] accept_ok(c, caller)) && d == accept_next(c)
    ||| (exists|caller: Seq<u8>| #[trigger] fund_ok(c, caller)) && d == fund_next(c)
    ||| (exists|caller: Seq<u8>| #[trigger] start_ok(c, caller)) && d == start_next(c)
    ||| tel_ok(c) && (exists|s: u32, k: u32, cost: i128|
        cost >= 0 && d == #[trigger] tel_next(c, s, k, cost))
    ||| (exists|h: Seq<u8>, caller: Seq<u8>|
        #[trigger] pod_ok(c, caller) && h.len() == 32 && d == #[trigger] pod_next(c, h))
    ||| settle_ok(c) && (exists|now: u64| d == #[trigger] settle_next(c, now))
}

/// Forward-only status: no operation moves a record's status backward or
/// skips a state. The statuses a record shows over time are therefore a
/// prefix of `Draft, Active, InTransit, Delivered, Settled`.
pub proof fn lemma_forward_only(c: ContractView, d: ContractView)
    requires
        record_step(c, d),
    ensures
        rank(c.status) <= rank(d.status),
        rank(d.status) <= rank(c.status) + 1,
{
}

/// A step never moves a status to anything but itself or its immediate
/// successor in the lifecycle chain.
pub proof fn lemma_no_skipped_state(c: ContractView, d: ContractView)
    requires
        record_step(c, d),
    ensures
        d.status == c.status || rank(d.status) == rank(c.status) + 1,
{
}

/// Once set, the escrow flag never reverts, and none of the three
/// telemetry accumulators ever decreases, whatever operation runs.
pub proof fn lemma_monotone_fields(c: ContractView, d: ContractView)
    requires
        record_step(c, d),
    ensures
        c.escrow_funded ==> d.escrow_funded,
        d.total_secs >= c.total_secs,
        d.total_km >= c.total_km,
        d.computed_cost >= c.computed_cost,
{
}

/// The identities, locations, payment terms and creation stamp of a
/// record never change, and the document digest changes only on the
/// delivery transition.
pub proof fn lemma_immutable_fields(c: ContractView, d: ContractView)
    requires
        record_step(c, d),
    ensures
        d.id == c.id,
        d.shipper == c.shipper,
        d.carrier == c.carrier,
        d.origin == c.origin,
        d.destination == c.destination,
        d.token == c.token,
        d.price == c.price,
        d.deadline_unix == c.deadline_unix,
        d.created_at == c.created_at,
        d.doc_hash != c.doc_hash ==> c.status == Status::InTransit && d.status
            == Status::Delivered,
{
}

/// Every operation leaves a well-formed record well formed.
pub proof fn lemma_record_step_wf(c: ContractView, d: ContractView)
    requires
        record_wf(c),
        record_step(c, d),
    ensures
        record_wf(d),
{
}

/// One call of any ledger operation, successful or not: either nothing
/// changed, or a fresh draft was appended, or exactly one stored record
/// took one state-machine step.
pub open spec fn ledger_step(pre: LedgerView, post: LedgerView) -> bool {
    ||| post == pre
    ||| (exists|c: ContractView, r: Result<u128, Error>|
        #[trigger] created_outcome(pre, post, c, r) && c.status == Status::Draft && record_wf(c))
    ||| (exists|id: u128, caller: Seq<u8>, r: Result<(), Error>|
        #[trigger] accept_outcome(pre, post, id, caller, r))
    ||| (exists|id: u128, caller: Seq<u8>, r: Result<(), Error>|
        #[trigger] funded_outcome(pre, post, id, caller, r))
    ||| (exists|id: u128, caller: Seq<u8>, r: Result<(), Error>|
        #[trigger] started_outcome(pre, post, id, caller, r))
    ||| (exists|id: u128, s: u32, k: u32, cost: i128, r: Result<(), Error>|
        #[trigger] telemetry_outcome(pre, post, id, s, k, cost, r) && cost >= 0)
    ||| (exists|id: u128, h: Seq<u8>, caller: Seq<u8>, r: Result<(), Error>|
        #[trigger] pod_outcome(pre, post, id, h, caller, r) && h.len() == 32)
    ||| (exists|id: u128, now: u64, r: Result<i128, Error>|
        #[trigger] settled_outcome(pre, post, id, now, r))
}

/// No operation ever removes a record.
pub proof fn lemma_len_monotone(pre: LedgerView, post: LedgerView)
    requires
        ledger_step(pre, post),
    ensures
        post.contracts.len() >= pre.contracts.len(),
{
}

/// A trace: consecutive ledger states, each reached from the one before
/// it by one call.
pub open spec fn evolution(tr: Seq<LedgerView>) -> bool {
    forall|i: int| 0 <= i && i + 1 < tr.len() ==> #[trigger] ledger_step(tr[i], tr[i + 1])
}

/// The record count never decreases along a trace.
pub proof fn lemma_trace_len_monotone(tr: Seq<LedgerView>, i: int, j: int)
    requires
        evolution(tr),
        0 <= i <= j < tr.len(),
    ensures
        tr[j].contracts.len() >= tr[i].contracts.len(),
    decreases j - i,
{
    if i < j {
        lemma_trace_len_monotone(tr, i, j - 1);
        assert(ledger_step(tr[j - 1], tr[(j - 1) + 1]));
        lemma_len_monotone(tr[j - 1], tr[j]);
    }
}

/// Monotonic ids: across any sequence of calls, interleaved with other
/// operations and failing ones, two creations return strictly increasing
/// identifiers — the earlier creation's id is below the later one's.
pub proof fn lemma_monotonic_ids(
    tr: Seq<LedgerView>,
    i: int,
    j: int,
    a: ContractView,
    b: ContractView,
    ra: Result<u128, Error>,
    rb: Result<u128, Error>,
)
    requires
        evolution(tr),
        0 <= i,
        i < j,
        j + 1 < tr.len(),
        ledger_wf(tr[i]),
        ledger_wf(tr[j]),
        created_outcome(tr[i], tr[i + 1], a, ra),
        created_outcome(tr[j], tr[j + 1], b, rb),
    ensures
        a.id < b.id,
        ra == Ok::<u128, Error>(a.id),
        rb == Ok::<u128, Error>(b.id),
{
    assert(tr[i].next < u128::MAX);
    assert(tr[j].next < u128::MAX);
    assert(a.id == tr[i].contracts.len() + 1);
    assert(b.id == tr[j].contracts.len() + 1);
    assert(tr[i + 1].contracts.len() == tr[i].contracts.len() + 1);
    lemma_trace_len_monotone(tr, i + 1, j);
}

/// Telemetry accumulation is monotonic: for every delta the operation
/// admits, each accumulator grows or stays put, zero deltas are the
/// identity, and the accumulators clamp at the representable maximum
/// instead of wrapping.
pub proof fn lemma_telemetry_monotone(c: ContractView, add_secs: u32, add_km: u32, add_cost: i128)
    requires
        add_cost >= 0,
    ensures
        tel_next(c, add_secs, add_km, add_cost).total_secs >= c.total_secs,
        tel_next(c, add_secs, add_km, add_cost).total_km >= c.total_km,
        tel_next(c, add_secs, add_km, add_cost).computed_cost >= c.computed_cost,
        add_secs == 0 && add_km == 0 && add_cost == 0 ==> tel_next(
            c,
            add_secs,
            add_km,
            add_cost,
        ) == c,
{
}

/// Settlement arithmetic: settling on or before the deadline disburses
/// the full price; settling after it disburses exactly half, truncated
/// toward zero; the disbursed amount is recorded as `last_paid` and the
/// record is terminal.
pub proof fn lemma_settlement_amount(c: ContractView, now: u64)
    requires
        settle_ok(c),
    ensures
        now <= c.deadline_unix ==> settle_next(c, now).last_paid == c.price,
        now > c.deadline_unix ==> settle_next(c, now).last_paid == half_toward_zero(c.price),
        settle_next(c, now).last_paid == payout(c.price, c.deadline_unix, now),
        settle_next(c, now).status == Status::Settled,
{
}

/// Authorization gating: whenever the caller lacks the role an operation
/// requires, that operation fails with `Unauthorized` and the ledger is
/// left exactly as it was.
pub proof fn lemma_authorization_gating(
    pre: LedgerView,
    post: LedgerView,
    id: u128,
    h: Seq<u8>,
    caller: Seq<u8>,
    r: Result<(), Error>,
)
    requires
        has_contract(pre, id),
    ensures
        accept_outcome(pre, post, id, caller, r) && caller != rec_of(pre, id).carrier ==> r
            == Err::<(), Error>(Error::Unauthorized) && post == pre,
        funded_outcome(pre, post, id, caller, r) && caller != rec_of(pre, id).shipper ==> r
            == Err::<(), Error>(Error::Unauthorized) && post == pre,
        started_outcome(pre, post, id, caller, r) && !is_party(rec_of(pre, id), caller) ==> r
            == Err::<(), Error>(Error::Unauthorized) && post == pre,
        pod_outcome(pre, post, id, h, caller, r) && !is_party(rec_of(pre, id), caller) ==> r
            == Err::<(), Error>(Error::Unauthorized) && post == pre,
{
}

/// The funding gate: starting the trip on an active, unfunded record
/// fails with `EscrowNotFunded` and changes nothing; once the shipper has
/// marked the escrow funded, either party may start the trip.
pub proof fn lemma_funding_gate(
    pre: LedgerView,
    post: LedgerView,
    id: u128,
    caller: Seq<u8>,
    r: Result<(), Error>,
)
    requires
        has_contract(pre, id),
    ensures
        ({
            let c = rec_of(pre, id);
            &&& started_outcome(pre, post, id, caller, r) && c.status == Status::Active
                && !c.escrow_funded && is_party(c, caller) ==> r == Err::<(), Error>(
                Error::EscrowNotFunded,
            ) && post == pre
            &&& c.status == Status::Active && is_party(c, caller) ==> start_ok(
                fund_next(c),
                caller,
            )
        }),
{
}

/// Read-after-write: immediately after a successful mutation of record
/// `id`, a read of `id` returns exactly the mutated record, and reads of
/// every other record are unaffected.
pub proof fn lemma_read_after_write(
    pre: LedgerView,
    post: LedgerView,
    id: u128,
    c: ContractView,
    ev: Event,
)
    requires
        writes_record(pre, post, id, c, ev),
    ensures
        lookup(post, id) == Some(c),
        forall|other: u128| other != id ==> lookup(post, other) == lookup(pre, other),
{
}

/// Read-after-create: immediately after a creation, a read of the
/// returned identifier yields the fresh record, and reads of every other
/// record are unaffected.
pub proof fn lemma_read_after_create(
    pre: LedgerView,
    post: LedgerView,
    c: ContractView,
    r: Result<u128, Error>,
)
    requires
        created_outcome(pre, post, c, r),
        pre.contracts.len() < u128::MAX,
    ensures
        lookup(post, next_assigned_id(pre)) == Some(c),
        forall|other: u128| other != next_assigned_id(pre) ==> lookup(post, other) == lookup(
            pre,
            other,
        ),
{
}

/// One stored record of a well-formed ledger takes one state-machine
/// step: the ledger stays well formed.
proof fn lemma_update_step_wf(pre: LedgerView, post: LedgerView, id: u128, d: ContractView)
    requires
        ledger_wf(pre),
        has_contract(pre, id),
        record_step(rec_of(pre, id), d),
        post.contracts == pre.contracts.update(id as int - 1, d),
        post.next == pre.next,
    ensures
        ledger_wf(post),
{
    let c = rec_of(pre, id);
    assert(c.id == id && record_wf(c));
    lemma_record_step_wf(c, d);
    assert(d.id == id);
    crate::ledger::lemma_wf_update(pre, post, id, d);
}

/// Across one call of any operation, an existing record either stays
/// exactly as it was or takes one state-machine step; it never vanishes.
pub proof fn lemma_record_tracked(pre: LedgerView, post: LedgerView, id: u128)
    requires
        ledger_step(pre, post),
        has_contract(pre, id),
    ensures
        has_contract(post, id),
        rec_of(post, id) == rec_of(pre, id) || record_step(rec_of(pre, id), rec_of(post, id)),
{
    if post == pre {
    } else if exists|c: ContractView, r: Result<u128, Error>|
        #[trigger] created_outcome(pre, post, c, r) && c.status == Status::Draft && record_wf(c) {
        let (c, r) = choose|c: ContractView, r: Result<u128, Error>|
            #[trigger] created_outcome(pre, post, c, r) && c.status == Status::Draft && record_wf(
                c,
            );
        assert(rec_of(post, id) == rec_of(pre, id));
    } else if exists|id2: u128, caller: Seq<u8>, r: Result<(), Error>|
        #[trigger] accept_outcome(pre, post, id2, caller, r) {
        let (id2, caller, r) = choose|id2: u128, caller: Seq<u8>, r: Result<(), Error>|
            #[trigger] accept_outcome(pre, post, id2, caller, r);
        if r is Ok {
            assert(accept_ok(rec_of(pre, id2), caller));
        }
    } else if exists|id2: u128, caller: Seq<u8>, r: Result<(), Error>|
        #[trigger] funded_outcome(pre, post, id2, caller, r) {
        let (id2, caller, r) = choose|id2: u128, caller: Seq<u8>, r: Result<(), Error>|
            #[trigger] funded_outcome(pre, post, id2, caller, r);
        if r is Ok {
            assert(fund_ok(rec_of(pre, id2), caller));
        }
    } else if exists|id2: u128, caller: Seq<u8>, r: Result<(), Error>|
        #[trigger] started_outcome(pre, post, id2, caller, r) {
        let (id2, caller, r) = choose|id2: u128, caller: Seq<u8>, r: Result<(), Error>|
            #[trigger] started_outcome(pre, post, id2, caller, r);
        if r is Ok {
            assert(start_ok(rec_of(pre, id2), caller));
        }
    } else if exists|id2: u128, s: u32, k: u32, cost: i128, r: Result<(), Error>|
        #[trigger] telemetry_outcome(pre, post, id2, s, k, cost, r) && cost >= 0 {
        let (id2, s, k, cost, r) = choose|id2: u128, s: u32, k: u32, cost: i128, r: Result<
            (),
            Error,
        >| #[trigger] telemetry_outcome(pre, post, id2, s, k, cost, r) && cost >= 0;
        if r is Ok && id2 == id {
            assert(rec_of(post, id) == tel_next(rec_of(pre, id), s, k, cost));
        }
    } else if exists|id2: u128, h: Seq<u8>, caller: Seq<u8>, r: Result<(), Error>|
        #[trigger] pod_outcome(pre, post, id2, h, caller, r) && h.len() == 32 {
        let (id2, h, caller, r) = choose|id2: u128, h: Seq<u8>, caller: Seq<u8>, r: Result<
            (),
            Error,
        >| #[trigger] pod_outcome(pre, post, id2, h, caller, r) && h.len() == 32;
        if r is Ok && id2 == id {
            assert(pod_ok(rec_of(pre, id), caller));
            assert(rec_of(post, id) == pod_next(rec_of(pre, id), h));
        }
    } else {
        let (id2, now, r) = choose|id2: u128, now: u64, r: Result<i128, Error>|
            #[trigger] settled_outcome(pre, post, id2, now, r);
        if r is Ok && id2 == id {
            assert(rec_of(post, id) == settle_next(rec_of(pre, id), now));
        }
    }
}

/// Forward-only status over time: along any trace of calls, the status a
/// record shows never moves backward, so the distinct statuses observed
/// form a prefix of `Draft, Active, InTransit, Delivered, Settled`.
pub proof fn lemma_forward_only_trace(tr: Seq<LedgerView>, id: u128, i: int, j: int)
    requires
        evolution(tr),
        0 <= i <= j < tr.len(),
        has_contract(tr[i], id),
    ensures
        has_contract(tr[j], id),
        rank(rec_of(tr[i], id).status) <= rank(rec_of(tr[j], id).status),
    decreases j - i,
{
    if i < j {
        lemma_forward_only_trace(tr, id, i, j - 1);
        assert(ledger_step(tr[j - 1], tr[(j - 1) + 1]));
        lemma_record_tracked(tr[j - 1], tr[j], id);
        if rec_of(tr[j], id) != rec_of(tr[j - 1], id) {
            lemma_forward_only(rec_of(tr[j - 1], id), rec_of(tr[j], id));
        }
    }
}

/// Every call of any operation leaves a well-formed ledger well formed.
pub proof fn lemma_step_preserves_wf(pre: LedgerView, post: LedgerView)
    requires
        ledger_wf(pre),
        ledger_step(pre, post),
    ensures
        ledger_wf(post),
{
    if post == pre {
    } else if exists|c: ContractView, r: Result<u128, Error>|
        #[trigger] created_outcome(pre, post, c, r) && c.status == Status::Draft && record_wf(c) {
        let (c, r) = choose|c: ContractView, r: Result<u128, Error>|
            #[trigger] created_outcome(pre, post, c, r) && c.status == Status::Draft && record_wf(
                c,
            );
        crate::ledger::lemma_wf_push(pre, post, c);
    } else if exists|id: u128, caller: Seq<u8>, r: Result<(), Error>|
        #[trigger] accept_outcome(pre, post, id, caller, r) {
        let (id, caller, r) = choose|id: u128, caller: Seq<u8>, r: Result<(), Error>|
            #[trigger] accept_outcome(pre, post, id, caller, r);
        if r is Ok {
            let c = rec_of(pre, id);
            assert(accept_ok(c, caller));
            lemma_update_step_wf(pre, post, id, accept_next(c));
        }
    } else if exists|id: u128, caller: Seq<u8>, r: Result<(), Error>|
        #[trigger] funded_outcome(pre, post, id, caller, r) {
        let (id, caller, r) = choose|id: u128, caller: Seq<u8>, r: Result<(), Error>|
            #[trigger] funded_outcome(pre, post, id, caller, r);
        if r is Ok {
            let c = rec_of(pre, id);
            assert(fund_ok(c, caller));
            lemma_update_step_wf(pre, post, id, fund_next(c));
        }
    } else if exists|id: u128, caller: Seq<u8>, r: Result<(), Error>|
        #[trigger] started_outcome(pre, post, id, caller, r) {
        let (id, caller, r) = choose|id: u128, caller: Seq<u8>, r: Result<(), Error>|
            #[trigger] started_outcome(pre, post, id, caller, r);
        if r is Ok {
            let c = rec_of(pre, id);
            assert(start_ok(c, caller));
            lemma_update_step_wf(pre, post, id, start_next(c));
        }
    } else if exists|id: u128, s: u32, k: u32, cost: i128, r: Result<(), Error>|
        #[trigger] telemetry_outcome(pre, post, id, s, k, cost, r) && cost >= 0 {
        let (id, s, k, cost, r) = choose|id: u128, s: u32, k: u32, cost: i128, r: Result<
            (),
            Error,
        >| #[trigger] telemetry_outcome(pre, post, id, s, k, cost, r) && cost >= 0;
        if r is Ok {
            let c = rec_of(pre, id);
            assert(tel_ok(c));
            lemma_update_step_wf(pre, post, id, tel_next(c, s, k, cost));
        }
    } else if exists|id: u128, h: Seq<u8>, caller: Seq<u8>, r: Result<(), Error>|
        #[trigger] pod_outcome(pre, post, id, h, caller, r) && h.len() == 32 {
        let (id, h, caller, r) = choose|id: u128, h: Seq<u8>, caller: Seq<u8>, r: Result<
            (),
            Error,
        >| #[trigger] pod_outcome(pre, post, id, h, caller, r) && h.len() == 32;
        if r is Ok {
            let c = rec_of(pre, id);
            assert(pod_ok(c, caller));
            lemma_update_step_wf(pre, post, id, pod_next(c, h));
        }
    } else {
        let (id, now, r) = choose|id: u128, now: u64, r: Result<i128, Error>|
            #[trigger] settled_outcome(pre, post, id, now, r);
        if r is Ok {
            let c = rec_of(pre, id);
            assert(settle_ok(c));
            lemma_update_step_wf(pre, post, id, settle_next(c, now));
        }
    }
}

} // verus!
