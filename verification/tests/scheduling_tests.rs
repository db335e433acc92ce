use std::cell::{Cell, RefCell};
use std::rc::Rc;

use workqueue::depot::Depot;
use workqueue::locator::FieldLocator;
use workqueue::pool::{is_freezable, Pool, QueueId};
use workqueue::queue::{
    system, system_bh, system_bh_highpri, system_freezable, system_freezable_power_efficient,
    system_highpri, system_long, system_power_efficient, system_unbound, trampoline, Queue,
    TrampolineOutcome,
};
use workqueue::work::{DelayedWork, HasDelayedWork, HasWork, OwnerPtr, Verdict, Work, WorkItem};

struct TwoSlot {
    value_1: i32,
    value_2: i32,
    #[allow(dead_code)]
    work_1: Work,
    #[allow(dead_code)]
    work_2: Work,
    log: Rc<RefCell<Vec<i32>>>,
}

impl WorkItem for TwoSlot {
    fn run(this: OwnerPtr<TwoSlot>, slot: u64) -> Verdict<TwoSlot> {
        let v = if slot == 1 { this.value.value_1 } else { this.value.value_2 };
        this.value.log.borrow_mut().push(v);
        Verdict::Done
    }
}

impl HasWork for TwoSlot {
    fn work_locator(slot: u64) -> FieldLocator {
        if slot == 1 {
            FieldLocator::from_offset(8)
        } else {
            FieldLocator::from_offset(16)
        }
    }
}

fn two_slot(pool: &mut Pool, log: &Rc<RefCell<Vec<i32>>>, v1: i32, v2: i32) -> (usize, TwoSlot) {
    let base = match pool.allocate(24) {
        Some(b) => b,
        None => panic!("address space exhausted"),
    };
    let work_1 = Work::new(pool, TwoSlot::work_locator(1).locate(base), 101);
    let work_2 = Work::new(pool, TwoSlot::work_locator(2).locate(base), 102);
    (base, TwoSlot { value_1: v1, value_2: v2, work_1, work_2, log: log.clone() })
}

#[test]
fn slot_two_fires_only_slot_two() {
    let mut pool = Pool::new();
    let mut depot: Depot<TwoSlot> = Depot::new();
    let log: Rc<RefCell<Vec<i32>>> = Rc::new(RefCell::new(Vec::new()));
    let (base, owner) = two_slot(&mut pool, &log, 24, 25);
    let q = system();
    let loc2 = TwoSlot::work_locator(2);
    let r = q.enqueue(&mut pool, &mut depot, &loc2, OwnerPtr { addr: base, value: owner });
    assert!(r.is_ok());
    let (addr, tramp) = pool.take_ready().expect("one submission is due");
    assert_eq!(addr, loc2.locate(base));
    assert_eq!(tramp, 102);
    let out = trampoline::<TwoSlot>(&q, &mut pool, &mut depot, &loc2, addr, 2);
    assert_eq!(out, TrampolineOutcome::Completed);
    assert_eq!(*log.borrow(), vec![25]);
    assert!(pool.take_ready().is_none());
}

#[test]
fn both_slots_fire_their_own_actions() {
    let mut pool = Pool::new();
    let mut depot: Depot<TwoSlot> = Depot::new();
    let log: Rc<RefCell<Vec<i32>>> = Rc::new(RefCell::new(Vec::new()));
    let (base, owner_a) = two_slot(&mut pool, &log, 24, 25);
    // A second handle to the same owner object, as shared ownership gives.
    let owner_b = TwoSlot {
        value_1: 24,
        value_2: 25,
        work_1: Work { addr: TwoSlot::work_locator(1).locate(base), tramp: 101 },
        work_2: Work { addr: TwoSlot::work_locator(2).locate(base), tramp: 102 },
        log: log.clone(),
    };
    let q = system();
    let loc1 = TwoSlot::work_locator(1);
    let loc2 = TwoSlot::work_locator(2);
    assert!(q.enqueue(&mut pool, &mut depot, &loc1, OwnerPtr { addr: base, value: owner_a }).is_ok());
    assert!(q.enqueue(&mut pool, &mut depot, &loc2, OwnerPtr { addr: base, value: owner_b }).is_ok());
    for _ in 0..2 {
        let (addr, tramp) = pool.take_ready().expect("a submission is due");
        if tramp == 101 {
            assert_eq!(addr, loc1.locate(base));
            let out = trampoline::<TwoSlot>(&q, &mut pool, &mut depot, &loc1, addr, 1);
            assert_eq!(out, TrampolineOutcome::Completed);
        } else {
            assert_eq!(tramp, 102);
            assert_eq!(addr, loc2.locate(base));
            let out = trampoline::<TwoSlot>(&q, &mut pool, &mut depot, &loc2, addr, 2);
            assert_eq!(out, TrampolineOutcome::Completed);
        }
    }
    assert!(pool.take_ready().is_none());
    let mut seen = log.borrow().clone();
    seen.sort();
    assert_eq!(seen, vec![24, 25]);
}

#[test]
fn double_submission_returns_the_identical_object() {
    let mut pool = Pool::new();
    let mut depot: Depot<TwoSlot> = Depot::new();
    let log: Rc<RefCell<Vec<i32>>> = Rc::new(RefCell::new(Vec::new()));
    let (base, owner_a) = two_slot(&mut pool, &log, 1, 2);
    let owner_b = TwoSlot {
        value_1: 41,
        value_2: 42,
        work_1: Work { addr: TwoSlot::work_locator(1).locate(base), tramp: 101 },
        work_2: Work { addr: TwoSlot::work_locator(2).locate(base), tramp: 102 },
        log: log.clone(),
    };
    let q = system();
    let loc1 = TwoSlot::work_locator(1);
    assert!(q.enqueue(&mut pool, &mut depot, &loc1, OwnerPtr { addr: base, value: owner_a }).is_ok());
    match q.enqueue(&mut pool, &mut depot, &loc1, OwnerPtr { addr: base, value: owner_b }) {
        Ok(()) => panic!("second submission of an in-flight record must be rejected"),
        Err(back) => {
            assert_eq!(back.addr, base);
            assert_eq!(back.value.value_1, 41);
            assert_eq!(back.value.value_2, 42);
        },
    }
    // The first submission still fires exactly once.
    let (addr, tramp) = pool.take_ready().expect("the first submission is due");
    assert_eq!(tramp, 101);
    let out = trampoline::<TwoSlot>(&q, &mut pool, &mut depot, &loc1, addr, 1);
    assert_eq!(out, TrampolineOutcome::Completed);
    assert_eq!(*log.borrow(), vec![1]);
    assert!(pool.take_ready().is_none());
}

struct Timed {
    #[allow(dead_code)]
    work: DelayedWork,
    fired: Rc<Cell<u32>>,
}

impl WorkItem for Timed {
    fn run(this: OwnerPtr<Timed>, _slot: u64) -> Verdict<Timed> {
        this.value.fired.set(this.value.fired.get() + 1);
        Verdict::Done
    }
}

impl HasWork for Timed {
    fn work_locator(_slot: u64) -> FieldLocator {
        FieldLocator::from_offset(0)
    }
}

impl HasDelayedWork for Timed {}

fn timed(pool: &mut Pool, fired: &Rc<Cell<u32>>) -> (usize, Timed) {
    let base = match pool.allocate(8) {
        Some(b) => b,
        None => panic!("address space exhausted"),
    };
    let work = DelayedWork::new(pool, base, 201);
    (base, Timed { work, fired: fired.clone() })
}

#[test]
fn delayed_submission_waits_the_full_delay() {
    let mut pool = Pool::new();
    let mut depot: Depot<Timed> = Depot::new();
    let fired: Rc<Cell<u32>> = Rc::new(Cell::new(0));
    let (base, owner) = timed(&mut pool, &fired);
    let q = system();
    let loc = Timed::work_locator(0);
    let r = q.enqueue_delayed(&mut pool, &mut depot, &loc, OwnerPtr { addr: base, value: owner }, 5);
    assert!(r.is_ok());
    assert!(pool.take_ready().is_none());
    pool.advance(4);
    assert!(pool.take_ready().is_none());
    pool.advance(1);
    let (addr, tramp) = pool.take_ready().expect("the timer has elapsed");
    assert_eq!(addr, base);
    assert_eq!(tramp, 201);
    let out = trampoline::<Timed>(&q, &mut pool, &mut depot, &loc, addr, 0);
    assert_eq!(out, TrampolineOutcome::Completed);
    assert_eq!(fired.get(), 1);
    assert!(pool.take_ready().is_none());
}

#[test]
fn zero_delay_behaves_like_immediate_enqueue() {
    let mut pool = Pool::new();
    let mut depot: Depot<Timed> = Depot::new();
    let fired: Rc<Cell<u32>> = Rc::new(Cell::new(0));
    let (base_a, owner_a) = timed(&mut pool, &fired);
    let (base_b, owner_b) = timed(&mut pool, &fired);
    let q = system();
    let loc = Timed::work_locator(0);
    let ra = q.enqueue_delayed(&mut pool, &mut depot, &loc, OwnerPtr { addr: base_a, value: owner_a }, 0);
    assert!(ra.is_ok());
    let rb = q.enqueue(&mut pool, &mut depot, &loc, OwnerPtr { addr: base_b, value: owner_b });
    assert!(rb.is_ok());
    // Both are due right away, without any clock advance.
    for _ in 0..2 {
        let (addr, tramp) = pool.take_ready().expect("both submissions are due at once");
        assert!(addr == base_a || addr == base_b);
        assert_eq!(tramp, 201);
        let out = trampoline::<Timed>(&q, &mut pool, &mut depot, &loc, addr, 0);
        assert_eq!(out, TrampolineOutcome::Completed);
    }
    assert_eq!(fired.get(), 2);
    assert!(pool.take_ready().is_none());
}

#[test]
fn delayed_double_submission_is_rejected() {
    let mut pool = Pool::new();
    let mut depot: Depot<Timed> = Depot::new();
    let fired: Rc<Cell<u32>> = Rc::new(Cell::new(0));
    let (base, owner) = timed(&mut pool, &fired);
    let q = system();
    let loc = Timed::work_locator(0);
    assert!(q.enqueue_delayed(&mut pool, &mut depot, &loc, OwnerPtr { addr: base, value: owner }, 3).is_ok());
    let again = Timed {
        work: DelayedWork { work: Work { addr: base, tramp: 201 } },
        fired: fired.clone(),
    };
    match q.enqueue_delayed(&mut pool, &mut depot, &loc, OwnerPtr { addr: base, value: again }, 1) {
        Ok(()) => panic!("second submission of an in-flight record must be rejected"),
        Err(back) => assert_eq!(back.addr, base),
    }
    // The rejected submission did not shorten the armed delay.
    pool.advance(2);
    assert!(pool.take_ready().is_none());
    pool.advance(1);
    assert!(pool.take_ready().is_some());
}

#[test]
fn delayed_exclusive_submission_waits_and_has_no_failure_outcome() {
    let mut pool = Pool::new();
    let mut depot: Depot<Timed> = Depot::new();
    let fired: Rc<Cell<u32>> = Rc::new(Cell::new(0));
    let (base, owner) = timed(&mut pool, &fired);
    let q = system();
    let loc = Timed::work_locator(0);
    q.enqueue_delayed_exclusive(
        &mut pool,
        &mut depot,
        &loc,
        OwnerPtr { addr: base, value: owner },
        3,
    );
    assert!(pool.take_ready().is_none());
    pool.advance(2);
    assert!(pool.take_ready().is_none());
    pool.advance(1);
    let (addr, tramp) = pool.take_ready().expect("the timer has elapsed");
    assert_eq!((addr, tramp), (base, 201));
    let out = trampoline::<Timed>(&q, &mut pool, &mut depot, &loc, addr, 0);
    assert_eq!(out, TrampolineOutcome::Completed);
    assert_eq!(fired.get(), 1);
    assert!(pool.take_ready().is_none());
}

#[test]
fn frozen_queues_hold_their_items_until_thawed() {
    let mut pool = Pool::new();
    let mut depot: Depot<Timed> = Depot::new();
    let fired: Rc<Cell<u32>> = Rc::new(Cell::new(0));
    let (base_a, owner_a) = timed(&mut pool, &fired);
    let (base_b, owner_b) = timed(&mut pool, &fired);
    let loc = Timed::work_locator(0);
    let qf = system_freezable();
    let qs = system();
    assert!(qf.enqueue(&mut pool, &mut depot, &loc, OwnerPtr { addr: base_a, value: owner_a }).is_ok());
    assert!(qs.enqueue(&mut pool, &mut depot, &loc, OwnerPtr { addr: base_b, value: owner_b }).is_ok());
    pool.freeze();
    let (addr, _) = pool.take_ready().expect("the non-freezable item still runs");
    assert_eq!(addr, base_b);
    let out = trampoline::<Timed>(&qs, &mut pool, &mut depot, &loc, addr, 0);
    assert_eq!(out, TrampolineOutcome::Completed);
    assert!(pool.take_ready().is_none());
    pool.thaw();
    let (addr, _) = pool.take_ready().expect("thawing releases the freezable item");
    assert_eq!(addr, base_a);
    let out = trampoline::<Timed>(&qf, &mut pool, &mut depot, &loc, addr, 0);
    assert_eq!(out, TrampolineOutcome::Completed);
    assert_eq!(fired.get(), 2);
}

#[test]
fn registry_names_nine_distinct_queues() {
    let ids = [
        system().id,
        system_highpri().id,
        system_long().id,
        system_unbound().id,
        system_freezable().id,
        system_power_efficient().id,
        system_freezable_power_efficient().id,
        system_bh().id,
        system_bh_highpri().id,
    ];
    for i in 0..ids.len() {
        for j in 0..ids.len() {
            if i != j {
                assert_ne!(ids[i], ids[j]);
            }
        }
    }
    assert!(is_freezable(QueueId::SystemFreezable));
    assert!(is_freezable(QueueId::SystemFreezablePowerEfficient));
    assert!(!is_freezable(QueueId::System));
    assert!(!is_freezable(QueueId::SystemPowerEfficient));
    let q = Queue::from_raw(QueueId::SystemLong);
    assert_eq!(q.id, QueueId::SystemLong);
}
