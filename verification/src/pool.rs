//! Model of the external worker-pool runtime: the linkage state of every
//! initialized work record, the tick clock that delayed submission is
//! measured against, and the submit / deliver primitives.
//!
//! The runtime is an external collaborator: it owns each record's linkage
//! state between acceptance and invocation, selects ready records in no
//! particular order, and invokes the bound trampoline with the record's bare
//! address. [`Pool`] holds that state explicitly so a driver can advance the
//! clock and perform deliveries one at a time, which makes the scheduling
//! contract of every primitive a statement about plain values.

use vstd::prelude::*;

verus! {

/// Identity of one of the predefined, process-wide queues.
#[derive(Clone, Copy, PartialEq, Eq, Structural, Debug)]
pub enum QueueId {
    /// General multi-CPU, multi-threaded queue with short flush times.
    System,
    /// Like `System`, for work needing higher scheduling priority.
    SystemHighpri,
    /// May host long-running work; flushing can take relatively long.
    SystemLong,
    /// No CPU affinity, not concurrency-managed; dispatches immediately
    /// subject to a max-active limit.
    SystemUnbound,
    /// Participates in the system-wide pause: in-flight items finish, no new
    /// ones start until resumed.
    SystemFreezable,
    /// Inclined towards saving power; may alias to the unbound queue under a
    /// runtime power policy.
    SystemPowerEfficient,
    /// Union of the freezable and power-efficient policies.
    SystemFreezablePowerEfficient,
    /// Restricted, non-blocking execution context for short actions.
    SystemBh,
    /// Like `SystemBh`, with higher scheduling priority.
    SystemBhHighpri,
}

/// Whether a queue participates in the system-wide pause.
pub open spec fn spec_is_freezable(q: QueueId) -> bool {
    q == QueueId::SystemFreezable || q == QueueId::SystemFreezablePowerEfficient
}

/// Whether a queue participates in the system-wide pause.
pub fn is_freezable(q: QueueId) -> (b: bool)
    ensures
        b == spec_is_freezable(q),
{
    match q {
        QueueId::SystemFreezable => true,
        QueueId::SystemFreezablePowerEfficient => true,
        _ => false,
    }
}

/// Linkage state of one record, owned by the runtime.
#[derive(Clone, Copy)]
pub enum LinkState {
    /// No outstanding submission.
    Idle,
    /// Accepted and in flight: will be delivered on `queue` once the clock
    /// reaches `ready_at`.
    Pending { queue: QueueId, ready_at: u64 },
}

/// Linkage state plus the immutable binding made when the record was
/// initialized: its address, its trampoline, and whether it carries the
/// one-shot timer that delayed submission arms.
#[derive(Clone, Copy)]
pub struct Record {
    /// Bare address of the record: the handle the runtime hands back.
    pub addr: usize,
    /// Trampoline bound at initialization; immutable thereafter.
    pub tramp: u64,
    /// Whether the record embeds the one-shot timer for delayed submission.
    pub delayed: bool,
    /// Current linkage state.
    pub state: LinkState,
}

/// No two records share an address.
pub open spec fn addrs_unique(rs: Seq<Record>) -> bool {
    forall|i: int, j: int|
        0 <= i < rs.len() && 0 <= j < rs.len() && i != j ==> rs[i].addr != rs[j].addr
}

/// Some record sits at `addr`.
pub open spec fn has_rec(rs: Seq<Record>, addr: usize) -> bool {
    exists|i: int| 0 <= i < rs.len() && rs[i].addr == addr
}

/// Index of the record at `addr` (meaningful under `has_rec`).
pub open spec fn idx_of(rs: Seq<Record>, addr: usize) -> int {
    choose|i: int| 0 <= i < rs.len() && rs[i].addr == addr
}

/// The record at `addr` (meaningful under `has_rec`).
pub open spec fn rec_of(rs: Seq<Record>, addr: usize) -> Record {
    rs[idx_of(rs, addr)]
}

/// A submission of `addr` is accepted exactly when the record is not already
/// in flight.
pub open spec fn submit_accepted(rs: Seq<Record>, addr: usize) -> bool {
    rec_of(rs, addr).state is Idle
}

/// The record, accepted onto `queue`, to fire once the clock reaches
/// `ready_at`.
pub open spec fn rec_submitted(r: Record, queue: QueueId, ready_at: u64) -> Record {
    Record { addr: r.addr, tramp: r.tramp, delayed: r.delayed, state: LinkState::Pending { queue, ready_at } }
}

/// The record after its pending submission has been delivered.
pub open spec fn rec_taken(r: Record) -> Record {
    Record { addr: r.addr, tramp: r.tramp, delayed: r.delayed, state: LinkState::Idle }
}

/// State of all records after a submission of `addr`: unchanged when the
/// record is already in flight, else only that record becomes pending.
pub open spec fn submit_step(rs: Seq<Record>, addr: usize, queue: QueueId, ready_at: u64) -> Seq<Record> {
    if submit_accepted(rs, addr) {
        rs.update(idx_of(rs, addr), rec_submitted(rec_of(rs, addr), queue, ready_at))
    } else {
        rs
    }
}

/// State of all records after the pending submission of `addr` has been
/// delivered: only that record returns to idle.
pub open spec fn take_step(rs: Seq<Record>, addr: usize) -> Seq<Record> {
    rs.update(idx_of(rs, addr), rec_taken(rec_of(rs, addr)))
}

/// Whether one record may be delivered now.
pub open spec fn rec_ready(r: Record, now: u64, frozen: bool) -> bool {
    r.state matches LinkState::Pending { queue, ready_at }
        && ready_at <= now
        && !(frozen && spec_is_freezable(queue))
}

/// Whether the record at `addr` may be delivered now: it is pending, its
/// ready tick has been reached, and its queue is not paused.
pub open spec fn deliverable(rs: Seq<Record>, addr: usize, now: u64, frozen: bool) -> bool {
    has_rec(rs, addr) && rec_ready(rec_of(rs, addr), now, frozen)
}

/// Under unique addresses, the record found by address at index `i` is
/// exactly `rs[i]`.
pub proof fn lemma_rec_at(rs: Seq<Record>, i: int)
    requires
        addrs_unique(rs),
        0 <= i < rs.len(),
    ensures
        has_rec(rs, rs[i].addr),
        idx_of(rs, rs[i].addr) == i,
        rec_of(rs, rs[i].addr) == rs[i],
{
    assert(has_rec(rs, rs[i].addr));
    let j = idx_of(rs, rs[i].addr);
    assert(0 <= j < rs.len() && rs[j].addr == rs[i].addr);
}

/// Updating index `i` with a record keeping its address preserves address
/// uniqueness, every address's presence, and every other record.
pub proof fn lemma_update_keeps_addrs(rs: Seq<Record>, i: int, r: Record)
    requires
        addrs_unique(rs),
        0 <= i < rs.len(),
        r.addr == rs[i].addr,
    ensures
        addrs_unique(rs.update(i, r)),
        forall|a: usize| has_rec(rs.update(i, r), a) == has_rec(rs, a),
        forall|a: usize| a != r.addr && has_rec(rs, a) ==> #[trigger] rec_of(rs.update(i, r), a) == rec_of(rs, a),
        has_rec(rs, r.addr) ==> idx_of(rs.update(i, r), r.addr) == i,
{
    let rs2 = rs.update(i, r);
    assert forall|a: usize| has_rec(rs2, a) == has_rec(rs, a) by {
        if has_rec(rs, a) {
            let k = idx_of(rs, a);
            assert(rs2[k].addr == a);
        }
        if has_rec(rs2, a) {
            let k = choose|k: int| 0 <= k < rs2.len() && rs2[k].addr == a;
            assert(rs[k].addr == a);
        }
    }
    lemma_rec_at(rs, i);
    assert forall|a: usize| a != r.addr && has_rec(rs, a) implies #[trigger] rec_of(rs2, a) == rec_of(rs, a) by {
        let k = idx_of(rs, a);
        assert(0 <= k < rs.len() && rs[k].addr == a);
        assert(k != i);
        assert(rs2[k].addr == a);
        let k2 = idx_of(rs2, a);
        assert(0 <= k2 < rs2.len() && rs2[k2].addr == a);
        if k2 != k {
            assert(rs2[k2].addr != rs2[k].addr);
        }
        assert(rec_of(rs2, a) == rs2[k]);
        assert(rs2[k] == rs[k]);
    }
    if has_rec(rs, r.addr) {
        let k = idx_of(rs2, r.addr);
        assert(0 <= k < rs2.len() && rs2[k].addr == r.addr);
        if k != i {
            assert(rs2[k] == rs[k]);
            assert(rs[k].addr != rs[i].addr);
        }
    }
}

/// An address at or past every recorded address belongs to no record.
pub proof fn lemma_fresh_addr_not_recorded(rs: Seq<Record>, bound: usize, addr: usize)
    requires
        forall|i: int| 0 <= i < rs.len() ==> (#[trigger] rs[i].addr) < bound,
        addr >= bound,
    ensures
        !has_rec(rs, addr),
{
    if has_rec(rs, addr) {
        let i = idx_of(rs, addr);
        assert(rs[i].addr < bound);
    }
}

/// The external runtime, as the state this layer relies on: every record's
/// linkage, the tick clock, the address space owners are carved out of, and
/// the system-wide pause flag.
pub struct Pool {
    now: u64,
    next_addr: usize,
    frozen: bool,
    records: Vec<Record>,
}

impl Pool {
    /// Linkage state of all initialized records.
    pub closed spec fn recs(self) -> Seq<Record> {
        self.records@
    }

    /// Current tick of the runtime clock.
    pub closed spec fn clock(self) -> u64 {
        self.now
    }

    /// First address not yet handed out; every record lies below it.
    pub closed spec fn alloc_top(self) -> usize {
        self.next_addr
    }

    /// Whether the system-wide pause is in effect.
    pub closed spec fn is_frozen(self) -> bool {
        self.frozen
    }

    /// Record addresses are unique and lie inside the handed-out address
    /// space, which starts past the null address.
    pub open spec fn wf(self) -> bool {
        &&& addrs_unique(self.recs())
        &&& forall|i: int| 0 <= i < self.recs().len() ==> (#[trigger] self.recs()[i].addr) < self.alloc_top()
        &&& self.alloc_top() >= 1
    }

    /// A fresh runtime: clock at zero, no records, nothing handed out, not
    /// paused.
    pub fn new() -> (p: Pool)
        ensures
            p.wf(),
            p.recs().len() == 0,
            p.clock() == 0,
            p.alloc_top() == 1,
            !p.is_frozen(),
    {
        Pool { now: 0, next_addr: 1, frozen: false, records: Vec::new() }
    }

    /// Carves `size` fresh bytes of address space for an owner object.
    /// Fails exactly when the address space is exhausted; this is the
    /// allocation failure that spawning surfaces.
    pub fn allocate(&mut self, size: usize) -> (r: Option<usize>)
        requires
            old(self).wf(),
            size >= 1,
        ensures
            final(self).wf(),
            final(self).recs() == old(self).recs(),
            final(self).clock() == old(self).clock(),
            final(self).is_frozen() == old(self).is_frozen(),
            match r {
                Some(base) => {
                    &&& base == old(self).alloc_top()
                    &&& final(self).alloc_top() == base + size
                },
                None => {
                    &&& final(self).alloc_top() == old(self).alloc_top()
                    &&& old(self).alloc_top() + size > usize::MAX
                },
            },
    {
        if self.next_addr <= usize::MAX - size {
            let base = self.next_addr;
            self.next_addr = self.next_addr + size;
            Some(base)
        } else {
            None
        }
    }

    /// Initializes a record at `addr`, binding its trampoline and timer
    /// capability. Models handing the linkage at that address over to the
    /// runtime; the binding is immutable thereafter.
    pub fn register(&mut self, addr: usize, tramp: u64, delayed: bool)
        requires
            old(self).wf(),
            addr < old(self).alloc_top(),
            !has_rec(old(self).recs(), addr),
        ensures
            final(self).wf(),
            final(self).recs() == old(self).recs().push(
                Record { addr, tramp, delayed, state: LinkState::Idle },
            ),
            final(self).clock() == old(self).clock(),
            final(self).alloc_top() == old(self).alloc_top(),
            final(self).is_frozen() == old(self).is_frozen(),
    {
        let r = Record { addr, tramp, delayed, state: LinkState::Idle };
        self.records.push(r);
        proof {
            let rs = old(self).recs();
            let rs2 = self.recs();
            assert forall|i: int, j: int|
                0 <= i < rs2.len() && 0 <= j < rs2.len() && i != j implies rs2[i].addr != rs2[j].addr by {
                if i < rs.len() && j < rs.len() {
                    assert(rs[i].addr != rs[j].addr);
                } else if i < rs.len() {
                    if rs[i].addr == addr {
                        assert(has_rec(rs, addr));
                    }
                } else if j < rs.len() {
                    if rs[j].addr == addr {
                        assert(has_rec(rs, addr));
                    }
                }
            }
        }
    }

    /// The submit primitive: accepts the record at `addr` onto `queue` for
    /// immediate delivery, or reports `false` exactly when the record is
    /// already in flight, in which case nothing changes.
    pub fn queue_work(&mut self, queue: QueueId, addr: usize) -> (accepted: bool)
        requires
            old(self).wf(),
            has_rec(old(self).recs(), addr),
        ensures
            final(self).wf(),
            accepted == submit_accepted(old(self).recs(), addr),
            final(self).recs() == submit_step(old(self).recs(), addr, queue, old(self).clock()),
            final(self).clock() == old(self).clock(),
            final(self).alloc_top() == old(self).alloc_top(),
            final(self).is_frozen() == old(self).is_frozen(),
    {
        let ready_at = self.now;
        self.submit_at(queue, addr, ready_at)
    }

    /// The delayed submit primitive: arms the record's one-shot timer so the
    /// submission fires `delay` ticks from now, with the same acceptance rule
    /// as [`Self::queue_work`]. A delay of zero is the immediate submission.
    pub fn queue_delayed_work(&mut self, queue: QueueId, addr: usize, delay: u64) -> (accepted: bool)
        requires
            old(self).wf(),
            has_rec(old(self).recs(), addr),
            rec_of(old(self).recs(), addr).delayed,
            old(self).clock() + delay <= u64::MAX,
        ensures
            final(self).wf(),
            accepted == submit_accepted(old(self).recs(), addr),
            final(self).recs() == submit_step(
                old(self).recs(),
                addr,
                queue,
                (old(self).clock() + delay) as u64,
            ),
            final(self).clock() == old(self).clock(),
            final(self).alloc_top() == old(self).alloc_top(),
            final(self).is_frozen() == old(self).is_frozen(),
    {
        let ready_at = self.now + delay;
        self.submit_at(queue, addr, ready_at)
    }

    /// Shared body of the two submit primitives.
    fn submit_at(&mut self, queue: QueueId, addr: usize, ready_at: u64) -> (accepted: bool)
        requires
            old(self).wf(),
            has_rec(old(self).recs(), addr),
        ensures
            final(self).wf(),
            accepted == submit_accepted(old(self).recs(), addr),
            final(self).recs() == submit_step(old(self).recs(), addr, queue, ready_at),
            final(self).clock() == old(self).clock(),
            final(self).alloc_top() == old(self).alloc_top(),
            final(self).is_frozen() == old(self).is_frozen(),
    {
        let ghost rs = self.recs();
        let n = self.records.len();
        let mut i: usize = 0;
        while i < n
            invariant
                n == rs.len(),
                rs == old(self).recs(),
                self.now == old(self).now,
                self.next_addr == old(self).next_addr,
                self.frozen == old(self).frozen,
                self.records@ == rs,
                old(self).wf(),
                has_rec(rs, addr),
                forall|j: int| 0 <= j < i ==> (#[trigger] rs[j].addr) != addr,
            decreases n - i,
        {
            let r = self.records[i];
            if r.addr == addr {
                proof {
                    lemma_rec_at(rs, i as int);
                }
                match r.state {
                    LinkState::Idle => {
                        let nr = Record {
                            addr: r.addr,
                            tramp: r.tramp,
                            delayed: r.delayed,
                            state: LinkState::Pending { queue, ready_at },
                        };
                        self.records[i] = nr;
                        proof {
                            lemma_update_keeps_addrs(rs, i as int, nr);
                        }
                        return true;
                    },
                    LinkState::Pending { .. } => {
                        return false;
                    },
                }
            }
            i = i + 1;
        }
        proof {
            let k = idx_of(rs, addr);
            assert(0 <= k < rs.len() && rs[k].addr == addr);
        }
        false
    }

    /// Advances the runtime clock by `ticks`.
    pub fn advance(&mut self, ticks: u64)
        requires
            old(self).wf(),
            old(self).clock() + ticks <= u64::MAX,
        ensures
            final(self).wf(),
            final(self).clock() == old(self).clock() + ticks,
            final(self).recs() == old(self).recs(),
            final(self).alloc_top() == old(self).alloc_top(),
            final(self).is_frozen() == old(self).is_frozen(),
    {
        self.now = self.now + ticks;
    }

    /// Enters the system-wide pause: freezable queues deliver nothing until
    /// [`Self::thaw`].
    pub fn freeze(&mut self)
        requires
            old(self).wf(),
        ensures
            final(self).wf(),
            final(self).is_frozen(),
            final(self).recs() == old(self).recs(),
            final(self).clock() == old(self).clock(),
            final(self).alloc_top() == old(self).alloc_top(),
    {
        self.frozen = true;
    }

    /// Leaves the system-wide pause.
    pub fn thaw(&mut self)
        requires
            old(self).wf(),
        ensures
            final(self).wf(),
            !final(self).is_frozen(),
            final(self).recs() == old(self).recs(),
            final(self).clock() == old(self).clock(),
            final(self).alloc_top() == old(self).alloc_top(),
    {
        self.frozen = false;
    }

    /// One delivery step of the runtime: picks some record whose submission
    /// is due — pending, ready tick reached, queue not paused — marks it
    /// idle again, and hands out its bare address and bound trampoline for
    /// dispatch. Which due record fires is not specified: the runtime orders
    /// nothing across distinct records. Returns `None` exactly when no
    /// record is due.
    pub fn take_ready(&mut self) -> (r: Option<(usize, u64)>)
        requires
            old(self).wf(),
        ensures
            final(self).wf(),
            final(self).clock() == old(self).clock(),
            final(self).alloc_top() == old(self).alloc_top(),
            final(self).is_frozen() == old(self).is_frozen(),
            match r {
                Some(hit) => {
                    &&& deliverable(old(self).recs(), hit.0, old(self).clock(), old(self).is_frozen())
                    &&& hit.1 == rec_of(old(self).recs(), hit.0).tramp
                    &&& final(self).recs() == take_step(old(self).recs(), hit.0)
                },
                None => {
                    &&& final(self).recs() == old(self).recs()
                    &&& forall|a: usize|
                        !deliverable(old(self).recs(), a, old(self).clock(), old(self).is_frozen())
                },
            },
    {
        let ghost rs = self.recs();
        let n = self.records.len();
        let mut i: usize = 0;
        while i < n
            invariant
                n == rs.len(),
                rs == old(self).recs(),
                self.now == old(self).now,
                self.next_addr == old(self).next_addr,
                self.frozen == old(self).frozen,
                self.records@ == rs,
                old(self).wf(),
                forall|j: int|
                    0 <= j < i ==> !rec_ready(#[trigger] rs[j], old(self).clock(), old(self).is_frozen()),
            decreases n - i,
        {
            let r = self.records[i];
            match r.state {
                LinkState::Pending { queue, ready_at } => {
                    if ready_at <= self.now && !(self.frozen && is_freezable(queue)) {
                        let nr = Record {
                            addr: r.addr,
                            tramp: r.tramp,
                            delayed: r.delayed,
                            state: LinkState::Idle,
                        };
                        self.records[i] = nr;
                        proof {
                            lemma_rec_at(rs, i as int);
                            lemma_update_keeps_addrs(rs, i as int, nr);
                        }
                        return Some((r.addr, r.tramp));
                    }
                },
                LinkState::Idle => {},
            }
            i = i + 1;
        }
        proof {
            assert forall|a: usize|
                !deliverable(rs, a, old(self).clock(), old(self).is_frozen()) by {
                if has_rec(rs, a) {
                    let k = idx_of(rs, a);
                    assert(0 <= k < rs.len() && rs[k].addr == a);
                    assert(!rec_ready(rs[k], old(self).clock(), old(self).is_frozen()));
                }
            }
        }
        None
    }
}

} // verus!
