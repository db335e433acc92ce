//! Queue handles, the predefined-queue registry, the ownership adapters that
//! submit an owner, and the trampoline that reconstructs ownership when the
//! runtime delivers a record.

use vstd::prelude::*;

use crate::depot::Depot;
use crate::locator::FieldLocator;
use crate::pool::{
    has_rec, rec_of, submit_accepted, submit_step, LinkState, Pool, QueueId, Record,
};
use crate::work::{reconstructed_owner, HasWork, OwnerPtr, Verdict, Work, WorkItem};

verus! {

/// A handle to one queue of the external runtime. The predefined instances
/// live for the whole process and are never destroyed by this layer.
#[derive(Clone, Copy)]
pub struct Queue {
    /// Which runtime queue this handle stands for.
    pub id: QueueId,
}

/// Spawning can fail only because the adapter holding the callback could not
/// be allocated; the action is then simply not scheduled.
#[derive(Clone, Copy, PartialEq, Eq, Structural, Debug)]
pub struct AllocError;

/// What the trampoline reports back to the runtime's delivery loop.
#[derive(Clone, Copy, PartialEq, Eq, Structural, Debug)]
pub enum TrampolineOutcome {
    /// The action finished and its ownership was released.
    Completed,
    /// The action re-submitted its own owner: a new in-flight period began
    /// and ownership was carried forward.
    Resubmitted,
}

/// A function scheduled by [`Queue::try_spawn`], invoked exactly once from a
/// worker invocation.
pub trait SpawnAction: Sized {
    /// Performs the spawned work, consuming the action.
    fn call(self);
}

/// The minimal exclusively-owned adapter that [`Queue::try_spawn`]
/// allocates: one record and one optional callback slot.
pub struct ClosureWork<F> {
    /// The embedded record, at the adapter's own address.
    pub work: Work,
    /// The callback, present until the trampoline takes it.
    pub func: Option<F>,
}

impl<F> ClosureWork<F> {
    /// The callback slot, which is not structurally tied to the record.
    pub fn project(&mut self) -> (r: &mut Option<F>)
        ensures
            *r == old(self).func,
            final(self).func == *final(r),
            final(self).work == old(self).work,
    {
        &mut self.func
    }
}

impl<F: SpawnAction> WorkItem for ClosureWork<F> {
    /// Takes the callback from the slot — tolerating an already-empty slot —
    /// and invokes it exactly once; ownership of the adapter is then
    /// released, never carried forward.
    fn run(this: OwnerPtr<ClosureWork<F>>, _slot: u64) -> (v: Verdict<ClosureWork<F>>)
        ensures
            v is Done,
            this.value.func matches Some(f) ==> call_ensures(F::call, (f,), ()),
    {
        let OwnerPtr { addr: _, value } = this;
        let mut cw = value;
        let f = cw.project().take();
        match f {
            Some(f) => f.call(),
            None => {},
        }
        Verdict::Done
    }
}

impl<F> HasWork for ClosureWork<F> {
    /// The adapter embeds its single record at its own address.
    fn work_locator(_slot: u64) -> FieldLocator {
        FieldLocator::from_offset(0)
    }
}

impl Queue {
    /// Wraps one queue of the runtime's registry.
    pub fn from_raw(id: QueueId) -> (q: Queue)
        ensures
            q.id == id,
    {
        Queue { id }
    }

    /// Submits a shared-ownership owner for deferred execution on this
    /// queue.
    ///
    /// The owner is converted to its bare record address via `loc` and
    /// handed to the submit primitive. On acceptance the ownership unit is
    /// parked for the in-flight period and the runtime will deliver the
    /// record exactly once. On rejection — exactly when the record is
    /// already in flight — the ownership is handed back unchanged, as the
    /// identical object that was submitted.
    pub fn enqueue<T>(
        &self,
        pool: &mut Pool,
        depot: &mut Depot<T>,
        loc: &FieldLocator,
        w: OwnerPtr<T>,
    ) -> (r: Result<(), OwnerPtr<T>>)
        requires
            old(pool).wf(),
            old(depot).wf(),
            w.addr + loc.offset <= usize::MAX,
            has_rec(old(pool).recs(), loc.locates(w.addr)),
            submit_accepted(old(pool).recs(), loc.locates(w.addr)) ==> !old(depot).parked(
                loc.locates(w.addr),
            ),
        ensures
            final(pool).wf(),
            final(depot).wf(),
            final(pool).recs() == submit_step(
                old(pool).recs(),
                loc.locates(w.addr),
                self.id,
                old(pool).clock(),
            ),
            final(pool).clock() == old(pool).clock(),
            final(pool).alloc_top() == old(pool).alloc_top(),
            final(pool).is_frozen() == old(pool).is_frozen(),
            submit_accepted(old(pool).recs(), loc.locates(w.addr)) ==> {
                &&& r is Ok
                &&& final(depot).parked(loc.locates(w.addr))
                &&& final(depot).item_at(loc.locates(w.addr)) == w.value
            },
            !submit_accepted(old(pool).recs(), loc.locates(w.addr)) ==> {
                &&& r matches Err(back) && back == w
                &&& *final(depot) == *old(depot)
            },
            forall|b: usize|
                b != loc.locates(w.addr) ==> final(depot).parked(b) == old(depot).parked(b),
            forall|b: usize|
                b != loc.locates(w.addr) && old(depot).parked(b) ==> final(depot).item_at(b)
                    == old(depot).item_at(b),
    {
        let record_addr = loc.locate(w.addr);
        let accepted = pool.queue_work(self.id, record_addr);
        if accepted {
            depot.park(record_addr, w.value);
            Ok(())
        } else {
            Err(w)
        }
    }

    /// Submits a shared-ownership owner with a delay: the record's one-shot
    /// timer is armed, and after `delay` ticks elapse the submission is
    /// exactly the immediate one. A delay of zero behaves identically to
    /// [`Self::enqueue`]. Acceptance and rejection are as for the immediate
    /// submission.
    pub fn enqueue_delayed<T>(
        &self,
        pool: &mut Pool,
        depot: &mut Depot<T>,
        loc: &FieldLocator,
        w: OwnerPtr<T>,
        delay: u64,
    ) -> (r: Result<(), OwnerPtr<T>>)
        requires
            old(pool).wf(),
            old(depot).wf(),
            w.addr + loc.offset <= usize::MAX,
            has_rec(old(pool).recs(), loc.locates(w.addr)),
            rec_of(old(pool).recs(), loc.locates(w.addr)).delayed,
            old(pool).clock() + delay <= u64::MAX,
            submit_accepted(old(pool).recs(), loc.locates(w.addr)) ==> !old(depot).parked(
                loc.locates(w.addr),
            ),
        ensures
            final(pool).wf(),
            final(depot).wf(),
            final(pool).recs() == submit_step(
                old(pool).recs(),
                loc.locates(w.addr),
                self.id,
                (old(pool).clock() + delay) as u64,
            ),
            final(pool).clock() == old(pool).clock(),
            final(pool).alloc_top() == old(pool).alloc_top(),
            final(pool).is_frozen() == old(pool).is_frozen(),
            submit_accepted(old(pool).recs(), loc.locates(w.addr)) ==> {
                &&& r is Ok
                &&& final(depot).parked(loc.locates(w.addr))
                &&& final(depot).item_at(loc.locates(w.addr)) == w.value
            },
            !submit_accepted(old(pool).recs(), loc.locates(w.addr)) ==> {
                &&& r matches Err(back) && back == w
                &&& *final(depot) == *old(depot)
            },
            forall|b: usize|
                b != loc.locates(w.addr) ==> final(depot).parked(b) == old(depot).parked(b),
            forall|b: usize|
                b != loc.locates(w.addr) && old(depot).parked(b) ==> final(depot).item_at(b)
                    == old(depot).item_at(b),
    {
        let record_addr = loc.locate(w.addr);
        let accepted = pool.queue_delayed_work(self.id, record_addr, delay);
        if accepted {
            depot.park(record_addr, w.value);
            Ok(())
        } else {
            Err(w)
        }
    }

    /// Submits an exclusively-held owner for deferred execution on this
    /// queue.
    ///
    /// An exclusively-held owner cannot already be in flight, so rejection
    /// is impossible by construction and this submission has no failure
    /// outcome: the primitive reporting rejection here would be a contract
    /// violation of the runtime, not a recoverable condition, and the
    /// verified primitive cannot report one.
    pub fn enqueue_exclusive<T>(
        &self,
        pool: &mut Pool,
        depot: &mut Depot<T>,
        loc: &FieldLocator,
        w: OwnerPtr<T>,
    )
        requires
            old(pool).wf(),
            old(depot).wf(),
            w.addr + loc.offset <= usize::MAX,
            has_rec(old(pool).recs(), loc.locates(w.addr)),
            submit_accepted(old(pool).recs(), loc.locates(w.addr)),
            !old(depot).parked(loc.locates(w.addr)),
        ensures
            final(pool).wf(),
            final(depot).wf(),
            final(pool).recs() == submit_step(
                old(pool).recs(),
                loc.locates(w.addr),
                self.id,
                old(pool).clock(),
            ),
            final(pool).clock() == old(pool).clock(),
            final(pool).alloc_top() == old(pool).alloc_top(),
            final(pool).is_frozen() == old(pool).is_frozen(),
            final(depot).parked(loc.locates(w.addr)),
            final(depot).item_at(loc.locates(w.addr)) == w.value,
            forall|b: usize|
                b != loc.locates(w.addr) ==> final(depot).parked(b) == old(depot).parked(b),
            forall|b: usize|
                b != loc.locates(w.addr) && old(depot).parked(b) ==> final(depot).item_at(b)
                    == old(depot).item_at(b),
    {
        let record_addr = loc.locate(w.addr);
        let accepted = pool.queue_work(self.id, record_addr);
        assert(accepted);
        depot.park(record_addr, w.value);
    }

    /// Submits an exclusively-held owner with a delay, arming its record's
    /// one-shot timer as [`Self::enqueue_delayed`] does. As for the
    /// immediate exclusive submission, rejection is impossible by
    /// construction and there is no failure outcome.
    pub fn enqueue_delayed_exclusive<T>(
        &self,
        pool: &mut Pool,
        depot: &mut Depot<T>,
        loc: &FieldLocator,
        w: OwnerPtr<T>,
        delay: u64,
    )
        requires
            old(pool).wf(),
            old(depot).wf(),
            w.addr + loc.offset <= usize::MAX,
            has_rec(old(pool).recs(), loc.locates(w.addr)),
            rec_of(old(pool).recs(), loc.locates(w.addr)).delayed,
            old(pool).clock() + delay <= u64::MAX,
            submit_accepted(old(pool).recs(), loc.locates(w.addr)),
            !old(depot).parked(loc.locates(w.addr)),
        ensures
            final(pool).wf(),
            final(depot).wf(),
            final(pool).recs() == submit_step(
                old(pool).recs(),
                loc.locates(w.addr),
                self.id,
                (old(pool).clock() + delay) as u64,
            ),
            final(pool).clock() == old(pool).clock(),
            final(pool).alloc_top() == old(pool).alloc_top(),
            final(pool).is_frozen() == old(pool).is_frozen(),
            final(depot).parked(loc.locates(w.addr)),
            final(depot).item_at(loc.locates(w.addr)) == w.value,
            forall|b: usize|
                b != loc.locates(w.addr) ==> final(depot).parked(b) == old(depot).parked(b),
            forall|b: usize|
                b != loc.locates(w.addr) && old(depot).parked(b) ==> final(depot).item_at(b)
                    == old(depot).item_at(b),
    {
        let record_addr = loc.locate(w.addr);
        let accepted = pool.queue_delayed_work(self.id, record_addr, delay);
        assert(accepted);
        depot.park(record_addr, w.value);
    }

    /// Tries to spawn the given action as a work item on this queue.
    ///
    /// Allocates a minimal exclusively-owned [`ClosureWork`] adapter
    /// embedding one record bound to `tramp` and holding the action, then
    /// enqueues it. Fails exactly when that allocation fails; the action is
    /// then not scheduled and nothing changes.
    pub fn try_spawn<F: SpawnAction>(
        &self,
        pool: &mut Pool,
        depot: &mut Depot<ClosureWork<F>>,
        tramp: u64,
        func: F,
    ) -> (r: Result<(), AllocError>)
        requires
            old(pool).wf(),
            old(depot).wf(),
            forall|a: usize| #[trigger] old(depot).parked(a) ==> a < old(pool).alloc_top(),
        ensures
            final(pool).wf(),
            final(depot).wf(),
            final(pool).clock() == old(pool).clock(),
            final(pool).is_frozen() == old(pool).is_frozen(),
            match r {
                Ok(u) => {
                    &&& old(pool).alloc_top() + 1 <= usize::MAX
                    &&& final(pool).alloc_top() == old(pool).alloc_top() + 1
                    &&& final(pool).recs() == old(pool).recs().push(
                        Record {
                            addr: old(pool).alloc_top(),
                            tramp,
                            delayed: false,
                            state: LinkState::Pending {
                                queue: self.id,
                                ready_at: old(pool).clock(),
                            },
                        },
                    )
                    &&& final(depot).parked(old(pool).alloc_top())
                    &&& final(depot).item_at(old(pool).alloc_top()).func == Some(func)
                    &&& final(depot).item_at(old(pool).alloc_top()).work.addr
                        == old(pool).alloc_top()
                    &&& final(depot).item_at(old(pool).alloc_top()).work.tramp == tramp
                    &&& forall|b: usize|
                        b != old(pool).alloc_top() ==> final(depot).parked(b)
                            == old(depot).parked(b)
                    &&& forall|b: usize|
                        b != old(pool).alloc_top() && old(depot).parked(b)
                            ==> final(depot).item_at(b) == old(depot).item_at(b)
                },
                Err(e) => {
                    &&& e == AllocError
                    &&& final(pool).recs() == old(pool).recs()
                    &&& final(pool).alloc_top() == old(pool).alloc_top()
                    &&& *final(depot) == *old(depot)
                    &&& old(pool).alloc_top() + 1 > usize::MAX
                },
            },
    {
        let base = match pool.allocate(1) {
            Some(base) => base,
            None => {
                return Err(AllocError);
            },
        };
        proof {
            crate::pool::lemma_fresh_addr_not_recorded(pool.recs(), base, base);
        }
        let work = Work::new(pool, base, tramp);
        let cw = ClosureWork { work, func: Some(func) };
        let loc = FieldLocator::from_offset(0);
        proof {
            crate::pool::lemma_rec_at(pool.recs(), pool.recs().len() - 1);
        }
        self.enqueue_exclusive(pool, depot, &loc, OwnerPtr { addr: base, value: cw });
        proof {
            let pushed = old(pool).recs().push(
                Record { addr: base, tramp, delayed: false, state: LinkState::Idle },
            );
            assert(pool.recs() =~= pushed.update(
                pushed.len() - 1,
                Record {
                    addr: base,
                    tramp,
                    delayed: false,
                    state: LinkState::Pending { queue: self.id, ready_at: old(pool).clock() },
                },
            ));
            assert(pool.recs() =~= old(pool).recs().push(
                Record {
                    addr: base,
                    tramp,
                    delayed: false,
                    state: LinkState::Pending { queue: self.id, ready_at: old(pool).clock() },
                },
            ));
        }
        Ok(())
    }
}

/// The single fixed-signature callback bridging the runtime back into typed
/// logic, one instance per (owner type, slot).
///
/// The runtime delivered `record_addr`, the bare address produced by the
/// matching submission, at most once per accepted submission and with the
/// pending mark already cleared. The trampoline resolves the record back to
/// its owner through the locator's inverse direction, reconstructs the exact
/// ownership unit consumed at submission time from the depot, and dispatches
/// to the owner's declared action for `slot`. If the action re-submits its
/// owner, ownership is carried forward into the new in-flight period on
/// `queue`; otherwise it is released here.
pub fn trampoline<T: WorkItem>(
    queue: &Queue,
    pool: &mut Pool,
    depot: &mut Depot<T>,
    loc: &FieldLocator,
    record_addr: usize,
    slot: u64,
) -> (o: TrampolineOutcome)
    requires
        old(pool).wf(),
        old(depot).wf(),
        record_addr >= loc.offset,
        old(depot).parked(record_addr),
        has_rec(old(pool).recs(), record_addr),
        submit_accepted(old(pool).recs(), record_addr),
    ensures
        final(pool).wf(),
        final(depot).wf(),
        final(pool).clock() == old(pool).clock(),
        final(pool).alloc_top() == old(pool).alloc_top(),
        final(pool).is_frozen() == old(pool).is_frozen(),
        match o {
            TrampolineOutcome::Completed => {
                &&& *final(pool) == *old(pool)
                &&& !final(depot).parked(record_addr)
            },
            TrampolineOutcome::Resubmitted => {
                &&& final(pool).recs() == submit_step(
                    old(pool).recs(),
                    record_addr,
                    queue.id,
                    old(pool).clock(),
                )
                &&& final(depot).parked(record_addr)
            },
        },
        forall|b: usize| b != record_addr ==> final(depot).parked(b) == old(depot).parked(b),
        forall|b: usize|
            b != record_addr && old(depot).parked(b)
                ==> final(depot).item_at(b) == old(depot).item_at(b),
        (exists|v: Verdict<T>|
            {
                &&& #[trigger] call_ensures(
                    T::run,
                    (
                        reconstructed_owner(*loc, record_addr, old(depot).item_at(record_addr)),
                        slot,
                    ),
                    v,
                )
                &&& (o == TrampolineOutcome::Completed <==> v is Done)
                &&& (v matches Verdict::Resubmit(w2)
                    ==> final(depot).item_at(record_addr) == w2.value)
            }),
{
    let owner_addr = loc.resolve(record_addr);
    let value = match depot.reclaim(record_addr) {
        Some(v) => v,
        None => vstd::pervasive::unreached(),
    };
    let owner = OwnerPtr { addr: owner_addr, value };
    assert(owner == reconstructed_owner(*loc, record_addr, old(depot).item_at(record_addr)));
    let verdict = T::run(owner, slot);
    let ghost gv = verdict;
    proof {
        assert(call_ensures(
            T::run,
            (reconstructed_owner(*loc, record_addr, old(depot).item_at(record_addr)), slot),
            gv,
        ));
    }
    match verdict {
        Verdict::Done => TrampolineOutcome::Completed,
        Verdict::Resubmit(w2) => {
            let ghost gw2 = w2;
            let accepted = pool.queue_work(queue.id, record_addr);
            assert(accepted);
            depot.park(record_addr, w2.value);
            proof {
                assert(gv matches Verdict::Resubmit(x) && x == gw2);
            }
            TrampolineOutcome::Resubmitted
        },
    }
}

/// The general multi-CPU, multi-threaded queue with short flush times;
/// callers shouldn't queue work items which can run for too long.
pub fn system() -> (q: Queue)
    ensures
        q.id == QueueId::System,
{
    Queue::from_raw(QueueId::System)
}

/// Like [`system`], for work items requiring higher scheduling priority.
pub fn system_highpri() -> (q: Queue)
    ensures
        q.id == QueueId::SystemHighpri,
{
    Queue::from_raw(QueueId::SystemHighpri)
}

/// May host long-running work items; queue flushing might take relatively
/// long.
pub fn system_long() -> (q: Queue)
    ensures
        q.id == QueueId::SystemLong,
{
    Queue::from_raw(QueueId::SystemLong)
}

/// Workers are not bound to any specific CPU and not concurrency-managed;
/// items are dispatched immediately subject to a max-active limit.
pub fn system_unbound() -> (q: Queue)
    ensures
        q.id == QueueId::SystemUnbound,
{
    Queue::from_raw(QueueId::SystemUnbound)
}

/// Participates in the freeze phase of the system-wide pause: in-flight
/// items are drained and no new item starts until thawed.
pub fn system_freezable() -> (q: Queue)
    ensures
        q.id == QueueId::SystemFreezable,
{
    Queue::from_raw(QueueId::SystemFreezable)
}

/// Inclined towards saving power; may alias to the unbound queue under a
/// runtime power policy.
pub fn system_power_efficient() -> (q: Queue)
    ensures
        q.id == QueueId::SystemPowerEfficient,
{
    Queue::from_raw(QueueId::SystemPowerEfficient)
}

/// Like [`system_power_efficient`], and additionally freezable.
pub fn system_freezable_power_efficient() -> (q: Queue)
    ensures
        q.id == QueueId::SystemFreezablePowerEfficient,
{
    Queue::from_raw(QueueId::SystemFreezablePowerEfficient)
}

/// Restricted, non-blocking execution context for short, latency-sensitive
/// actions.
pub fn system_bh() -> (q: Queue)
    ensures
        q.id == QueueId::SystemBh,
{
    Queue::from_raw(QueueId::SystemBh)
}

/// Like [`system_bh`], for work items requiring higher scheduling priority.
pub fn system_bh_highpri() -> (q: Queue)
    ensures
        q.id == QueueId::SystemBhHighpri,
{
    Queue::from_raw(QueueId::SystemBhHighpri)
}

} // verus!
