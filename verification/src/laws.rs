//! The layer's scheduling laws, stated over the runtime model's transition
//! functions and proved once for every state they can reach.

use vstd::prelude::*;

use crate::pool::{
    addrs_unique, deliverable, has_rec, idx_of, lemma_rec_at, lemma_update_keeps_addrs, rec_of,
    rec_submitted, rec_taken, submit_accepted, submit_step, take_step, QueueId, Record,
};
use crate::queue::{ClosureWork, SpawnAction};
use crate::work::{OwnerPtr, Verdict, WorkItem};

verus! {

/// Submitting one record touches no other record's state and never changes
/// any record's bound trampoline; delivering one record likewise. So
/// submitting slot `a` can lead only to slot `a`'s bound trampoline, never
/// another slot's, regardless of interleaving.
pub proof fn lemma_slot_isolation(rs: Seq<Record>, a: usize, b: usize, q: QueueId, t: u64)
    requires
        addrs_unique(rs),
        has_rec(rs, a),
        has_rec(rs, b),
        b != a,
    ensures
        rec_of(submit_step(rs, a, q, t), b) == rec_of(rs, b),
        rec_of(take_step(rs, a), b) == rec_of(rs, b),
        rec_of(submit_step(rs, a, q, t), a).tramp == rec_of(rs, a).tramp,
        rec_of(take_step(rs, a), a).tramp == rec_of(rs, a).tramp,
{
    let i = idx_of(rs, a);
    assert(0 <= i < rs.len() && rs[i].addr == a);
    lemma_rec_at(rs, i);
    if submit_accepted(rs, a) {
        lemma_update_keeps_addrs(rs, i, rec_submitted(rs[i], q, t));
    }
    lemma_update_keeps_addrs(rs, i, rec_taken(rs[i]));
}

/// Initialization binds: registering a record at a fresh address makes that
/// record — idle, with its trampoline — findable at exactly its address, and
/// leaves every existing record untouched. Together with
/// [`lemma_slot_isolation`], the trampoline bound at initialization is the
/// one every later delivery of that address hands out.
pub proof fn lemma_register_binds(rs: Seq<Record>, r: Record)
    requires
        addrs_unique(rs),
        !has_rec(rs, r.addr),
    ensures
        addrs_unique(rs.push(r)),
        has_rec(rs.push(r), r.addr),
        rec_of(rs.push(r), r.addr) == r,
        forall|b: usize| b != r.addr ==> has_rec(rs.push(r), b) == has_rec(rs, b),
        forall|b: usize|
            b != r.addr && has_rec(rs, b) ==> #[trigger] rec_of(rs.push(r), b) == rec_of(rs, b),
{
    let rs2 = rs.push(r);
    assert forall|i: int, j: int|
        0 <= i < rs2.len() && 0 <= j < rs2.len() && i != j implies rs2[i].addr != rs2[j].addr by {
        if i < rs.len() && j < rs.len() {
            assert(rs[i].addr != rs[j].addr);
        } else if i < rs.len() {
            if rs[i].addr == r.addr {
                assert(has_rec(rs, r.addr));
            }
        } else if j < rs.len() {
            if rs[j].addr == r.addr {
                assert(has_rec(rs, r.addr));
            }
        }
    }
    assert(rs2[rs.len() as int].addr == r.addr);
    lemma_rec_at(rs2, rs.len() as int);
    assert forall|b: usize| b != r.addr implies has_rec(rs2, b) == has_rec(rs, b) by {
        if has_rec(rs, b) {
            let k = idx_of(rs, b);
            assert(rs2[k].addr == b);
        }
        if has_rec(rs2, b) {
            let k = idx_of(rs2, b);
            assert(0 <= k < rs2.len() && rs2[k].addr == b);
            assert(k != rs.len());
            assert(rs[k].addr == b);
        }
    }
    assert forall|b: usize| b != r.addr && has_rec(rs, b) implies #[trigger] rec_of(rs2, b)
        == rec_of(rs, b) by {
        let k = idx_of(rs, b);
        assert(0 <= k < rs.len() && rs[k].addr == b);
        assert(rs2[k].addr == b);
        lemma_rec_at(rs2, k);
    }
}

/// At most one in flight: an accepted submission leaves the record in
/// flight, so a second submission of the same record before delivery is
/// rejected.
pub proof fn lemma_at_most_one_in_flight(rs: Seq<Record>, a: usize, q: QueueId, t: u64)
    requires
        addrs_unique(rs),
        has_rec(rs, a),
        submit_accepted(rs, a),
    ensures
        !submit_accepted(submit_step(rs, a, q, t), a),
{
    let i = idx_of(rs, a);
    assert(0 <= i < rs.len() && rs[i].addr == a);
    lemma_rec_at(rs, i);
    lemma_update_keeps_addrs(rs, i, rec_submitted(rs[i], q, t));
}

/// Delay monotonicity: a submission accepted at clock `c` with delay `d` is
/// armed for tick `c + d`, and is not deliverable at any clock before that,
/// whatever the pause flag. Since delivery requires deliverability and the
/// clock only ever advances, the trampoline never runs before `d` ticks
/// have elapsed.
pub proof fn lemma_delay_monotonicity(
    rs: Seq<Record>,
    a: usize,
    q: QueueId,
    c: u64,
    d: u64,
    n: u64,
    frozen: bool,
)
    requires
        addrs_unique(rs),
        has_rec(rs, a),
        submit_accepted(rs, a),
        c + d <= u64::MAX,
        n < c + d,
    ensures
        !deliverable(submit_step(rs, a, q, (c + d) as u64), a, n, frozen),
{
    let i = idx_of(rs, a);
    assert(0 <= i < rs.len() && rs[i].addr == a);
    lemma_rec_at(rs, i);
    lemma_update_keeps_addrs(rs, i, rec_submitted(rs[i], q, (c + d) as u64));
}

/// A delayed submission with delay zero is the immediate submission: both
/// arm the record for the very clock they were accepted at, and the
/// transition is identical.
pub proof fn lemma_zero_delay_is_immediate(rs: Seq<Record>, a: usize, q: QueueId, c: u64)
    ensures
        submit_step(rs, a, q, (c + 0) as u64) == submit_step(rs, a, q, c),
{
}

/// A delivery spends the submission: once the runtime hands a record out,
/// that record is no longer deliverable — each accepted submission is
/// delivered at most once — and the record is again open for a fresh
/// submission.
pub proof fn lemma_single_delivery(rs: Seq<Record>, a: usize, n: u64, frozen: bool)
    requires
        addrs_unique(rs),
        has_rec(rs, a),
    ensures
        !deliverable(take_step(rs, a), a, n, frozen),
        submit_accepted(take_step(rs, a), a),
{
    let i = idx_of(rs, a);
    assert(0 <= i < rs.len() && rs[i].addr == a);
    lemma_rec_at(rs, i);
    lemma_update_keeps_addrs(rs, i, rec_taken(rs[i]));
}

/// Re-entrant re-submission: after an accepted submission is delivered, a
/// re-submission of the same record from within the action is accepted, and
/// it leaves the record pending exactly as a fresh submission would — one
/// further invocation, no second in-flight period.
pub proof fn lemma_reentrant_resubmission(
    rs: Seq<Record>,
    a: usize,
    q1: QueueId,
    t1: u64,
    q2: QueueId,
    t2: u64,
)
    requires
        addrs_unique(rs),
        has_rec(rs, a),
        submit_accepted(rs, a),
    ensures
        submit_accepted(take_step(submit_step(rs, a, q1, t1), a), a),
        rec_of(submit_step(take_step(submit_step(rs, a, q1, t1), a), a, q2, t2), a)
            == rec_submitted(rec_of(rs, a), q2, t2),
{
    let i = idx_of(rs, a);
    assert(0 <= i < rs.len() && rs[i].addr == a);
    lemma_rec_at(rs, i);
    let rs1 = submit_step(rs, a, q1, t1);
    lemma_update_keeps_addrs(rs, i, rec_submitted(rs[i], q1, t1));
    assert(rs1 == rs.update(i, rec_submitted(rs[i], q1, t1)));
    let rs2 = take_step(rs1, a);
    lemma_update_keeps_addrs(rs1, i, rec_taken(rs1[i]));
    assert(rs2 == rs1.update(i, rec_taken(rs1[i])));
    assert(submit_accepted(rs2, a));
    let rs3 = submit_step(rs2, a, q2, t2);
    lemma_update_keeps_addrs(rs2, i, rec_submitted(rs2[i], q2, t2));
    assert(rec_of(rs3, a) == rec_submitted(rs2[i], q2, t2));
}

/// A spawned callback runs when its adapter is dispatched: every verdict
/// the trampoline can attest for the spawn adapter's action says the
/// callback was invoked — when the slot held one — and that the adapter
/// never carries ownership forward. With the delivery spent
/// ([`lemma_single_delivery`]) and re-submission ruled out, the callback
/// runs exactly once, and only from a trampoline invocation.
pub proof fn lemma_spawned_action_runs<F: SpawnAction>(
    owner: OwnerPtr<ClosureWork<F>>,
    slot: u64,
    v: Verdict<ClosureWork<F>>,
)
    requires
        call_ensures(<ClosureWork<F> as WorkItem>::run, (owner, slot), v),
    ensures
        v is Done,
        owner.value.func matches Some(f) ==> call_ensures(F::call, (f,), ()),
{
}

} // verus!
