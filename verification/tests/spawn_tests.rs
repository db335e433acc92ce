use std::cell::Cell;
use std::rc::Rc;

use workqueue::depot::Depot;
use workqueue::locator::FieldLocator;
use workqueue::pool::Pool;
use workqueue::queue::{
    system, system_unbound, trampoline, AllocError, ClosureWork, SpawnAction, TrampolineOutcome,
};
use workqueue::work::{HasWork, OwnerPtr, Verdict, Work, WorkItem};

struct CountedAction {
    counter: Rc<Cell<u32>>,
}

impl SpawnAction for CountedAction {
    fn call(self) {
        self.counter.set(self.counter.get() + 1);
    }
}

#[test]
fn spawn_runs_the_action_exactly_once_and_never_synchronously() {
    let mut pool = Pool::new();
    let mut depot: Depot<ClosureWork<CountedAction>> = Depot::new();
    let counter: Rc<Cell<u32>> = Rc::new(Cell::new(0));
    let q = system_unbound();
    let r = q.try_spawn(&mut pool, &mut depot, 900, CountedAction { counter: counter.clone() });
    assert_eq!(r, Ok(()));
    // Nothing ran on the submitting side.
    assert_eq!(counter.get(), 0);
    let (addr, tramp) = pool.take_ready().expect("the spawned item is due");
    assert_eq!(tramp, 900);
    let loc = <ClosureWork<CountedAction> as HasWork>::work_locator(0);
    let out = trampoline::<ClosureWork<CountedAction>>(&q, &mut pool, &mut depot, &loc, addr, 0);
    assert_eq!(out, TrampolineOutcome::Completed);
    assert_eq!(counter.get(), 1);
    // Exactly once: nothing further is due.
    assert!(pool.take_ready().is_none());
    assert_eq!(counter.get(), 1);
}

#[test]
fn spawn_reports_allocation_failure_and_schedules_nothing() {
    let mut pool = Pool::new();
    let mut depot: Depot<ClosureWork<CountedAction>> = Depot::new();
    let counter: Rc<Cell<u32>> = Rc::new(Cell::new(0));
    // Exhaust the address space.
    assert!(pool.allocate(usize::MAX - 1).is_some());
    let q = system();
    let r = q.try_spawn(&mut pool, &mut depot, 901, CountedAction { counter: counter.clone() });
    assert_eq!(r, Err(AllocError));
    assert_eq!(counter.get(), 0);
    assert!(pool.take_ready().is_none());
}

#[test]
fn trampoline_tolerates_an_already_empty_callback_slot() {
    let mut pool = Pool::new();
    let mut depot: Depot<ClosureWork<CountedAction>> = Depot::new();
    let base = match pool.allocate(8) {
        Some(b) => b,
        None => panic!("address space exhausted"),
    };
    let work = Work::new(&mut pool, base, 902);
    let empty: ClosureWork<CountedAction> = ClosureWork { work, func: None };
    let q = system();
    let loc = FieldLocator::from_offset(0);
    assert!(q.enqueue(&mut pool, &mut depot, &loc, OwnerPtr { addr: base, value: empty }).is_ok());
    let (addr, tramp) = pool.take_ready().expect("the item is due");
    assert_eq!(tramp, 902);
    let out = trampoline::<ClosureWork<CountedAction>>(&q, &mut pool, &mut depot, &loc, addr, 0);
    assert_eq!(out, TrampolineOutcome::Completed);
    assert!(pool.take_ready().is_none());
}

struct Rearming {
    #[allow(dead_code)]
    work: Work,
    runs: Rc<Cell<u32>>,
}

impl WorkItem for Rearming {
    fn run(this: OwnerPtr<Rearming>, _slot: u64) -> Verdict<Rearming> {
        this.value.runs.set(this.value.runs.get() + 1);
        if this.value.runs.get() == 1 {
            // Re-submit our own owner from within the trampoline.
            Verdict::Resubmit(this)
        } else {
            Verdict::Done
        }
    }
}

impl HasWork for Rearming {
    fn work_locator(_slot: u64) -> FieldLocator {
        FieldLocator::from_offset(0)
    }
}

#[test]
fn reentrant_resubmission_runs_exactly_once_more() {
    let mut pool = Pool::new();
    let mut depot: Depot<Rearming> = Depot::new();
    let runs: Rc<Cell<u32>> = Rc::new(Cell::new(0));
    let base = match pool.allocate(8) {
        Some(b) => b,
        None => panic!("address space exhausted"),
    };
    let work = Work::new(&mut pool, base, 301);
    let owner = Rearming { work, runs: runs.clone() };
    let q = system();
    let loc = Rearming::work_locator(0);
    assert!(q.enqueue(&mut pool, &mut depot, &loc, OwnerPtr { addr: base, value: owner }).is_ok());

    let (addr, tramp) = pool.take_ready().expect("the first submission is due");
    assert_eq!((addr, tramp), (base, 301));
    let out = trampoline::<Rearming>(&q, &mut pool, &mut depot, &loc, addr, 0);
    assert_eq!(out, TrampolineOutcome::Resubmitted);
    assert_eq!(runs.get(), 1);

    let (addr, tramp) = pool.take_ready().expect("the re-submission is due");
    assert_eq!((addr, tramp), (base, 301));
    let out = trampoline::<Rearming>(&q, &mut pool, &mut depot, &loc, addr, 0);
    assert_eq!(out, TrampolineOutcome::Completed);
    assert_eq!(runs.get(), 2);

    // Exactly one further invocation: the owner is gone, nothing is due.
    assert!(pool.take_ready().is_none());
}
