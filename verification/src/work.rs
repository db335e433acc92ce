//! Embeddable work records and the contract an owner type declares.

use vstd::prelude::*;

use crate::locator::FieldLocator;
use crate::pool::{has_rec, LinkState, Pool, Record};

verus! {

/// An owning pointer to an owner object: the value together with the address
/// its records are located from. Models the one conceptual ownership unit
/// that submission forfeits and the trampoline reconstructs.
pub struct OwnerPtr<T> {
    /// Address of the owner object.
    pub addr: usize,
    /// The owner object itself.
    pub value: T,
}

/// The ownership unit the trampoline reconstructs for a delivered record:
/// the value consumed at submission, owned again at the owner address that
/// the locator's inverse direction resolves from the record's bare address.
pub open spec fn reconstructed_owner<T>(loc: FieldLocator, record_addr: usize, value: T) -> OwnerPtr<T> {
    OwnerPtr { addr: loc.resolves(record_addr), value }
}

/// What a deferred action decides for the ownership it was handed.
pub enum Verdict<T> {
    /// The action is finished; ownership is released and ordinary drop rules
    /// apply.
    Done,
    /// The action re-submits its own owner from within the trampoline:
    /// ownership is carried forward into a new in-flight period instead of
    /// being dropped.
    Resubmit(OwnerPtr<T>),
}

/// What an owner type declares: its deferred action. The trampoline invokes
/// it with reconstructed ownership of the owner and the slot whose record
/// fired; the returned verdict decides whether ownership is released or
/// carried into a re-submission.
pub trait WorkItem: Sized {
    /// The deferred action.
    fn run(this: OwnerPtr<Self>, slot: u64) -> Verdict<Self>;
}

/// The embedded record for one (owner type, slot): a typed descriptor of the
/// linkage state that [`Pool`] owns at its address.
///
/// Creating it initializes the record in place at its final embedded address
/// and binds the trampoline for the concrete owner type at this slot; the
/// binding is immutable thereafter. The record is inert — nothing is
/// runtime-visible — until first submitted.
pub struct Work {
    /// Final embedded address of the record.
    pub addr: usize,
    /// The trampoline bound for this (owner type, slot).
    pub tramp: u64,
}

impl Work {
    /// Initializes a record at its final embedded address `addr`, binding
    /// trampoline `tramp`. There is no internal failure mode; all failure
    /// surfaces through submission.
    pub fn new(pool: &mut Pool, addr: usize, tramp: u64) -> (w: Work)
        requires
            old(pool).wf(),
            addr < old(pool).alloc_top(),
            !has_rec(old(pool).recs(), addr),
        ensures
            final(pool).wf(),
            final(pool).recs() == old(pool).recs().push(
                Record { addr, tramp, delayed: false, state: LinkState::Idle },
            ),
            final(pool).clock() == old(pool).clock(),
            final(pool).alloc_top() == old(pool).alloc_top(),
            final(pool).is_frozen() == old(pool).is_frozen(),
            w.addr == addr,
            w.tramp == tramp,
    {
        pool.register(addr, tramp, false);
        Work { addr, tramp }
    }

    /// The linkage address the runtime expects: pure address arithmetic from
    /// the record, never a dereference. The linkage sits at the record's own
    /// address.
    pub fn raw_get(&self) -> (r: usize)
        ensures
            r == self.addr,
    {
        self.addr
    }
}

/// The embedded record for one (owner type, slot) of an owner that may also
/// be submitted with a delay: a [`Work`] record together with the embedded
/// one-shot timer the delayed submission arms. The timer fires at most once
/// and then performs exactly the same submission as an immediate record.
pub struct DelayedWork {
    /// The plain record, at the delayed record's own address.
    pub work: Work,
}

impl DelayedWork {
    /// Initializes a delayed record at its final embedded address `addr`:
    /// the plain record with trampoline `tramp`, plus its timer.
    pub fn new(pool: &mut Pool, addr: usize, tramp: u64) -> (w: DelayedWork)
        requires
            old(pool).wf(),
            addr < old(pool).alloc_top(),
            !has_rec(old(pool).recs(), addr),
        ensures
            final(pool).wf(),
            final(pool).recs() == old(pool).recs().push(
                Record { addr, tramp, delayed: true, state: LinkState::Idle },
            ),
            final(pool).clock() == old(pool).clock(),
            final(pool).alloc_top() == old(pool).alloc_top(),
            final(pool).is_frozen() == old(pool).is_frozen(),
            w.work.addr == addr,
            w.work.tramp == tramp,
    {
        pool.register(addr, tramp, true);
        DelayedWork { work: Work { addr, tramp } }
    }

    /// The plain record's linkage address within the delayed record: the
    /// same address, so one trampoline mechanism and one offset chain serve
    /// both record kinds.
    pub fn raw_as_work(&self) -> (r: usize)
        ensures
            r == self.work.addr,
    {
        self.work.raw_get()
    }
}

/// An owner type declares where its record for one slot is embedded; the
/// locator's two directions are generated from that single declared offset.
pub trait HasWork {
    /// The locator for this owner type's record at this slot.
    fn work_locator(slot: u64) -> crate::locator::FieldLocator;
}

/// Declares that the record an owner embeds at a slot is a [`DelayedWork`],
/// reachable through the same offset chain as a plain record, so the owner
/// may also be submitted with a delay.
pub trait HasDelayedWork: HasWork {

}

} // verus!
