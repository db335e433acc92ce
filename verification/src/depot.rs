//! Parking for owner values during their in-flight period.
//!
//! Submitting an owner forfeits its ownership: the value moves in here, keyed
//! by the bare address of the submitted record — the ownership token. The
//! trampoline is the sole authorized resumption point: it takes the value
//! back out when the runtime delivers that address, or the rejection path
//! hands it straight back without ever parking it.

use vstd::prelude::*;

verus! {

/// One parking space: the record address it is keyed by, and the owner value
/// while that record's submission is in flight.
pub struct ParkedEntry<T> {
    /// Bare address of the submitted record.
    pub addr: usize,
    /// The owner value, present exactly while in flight.
    pub item: Option<T>,
}

/// No two entries share an address.
pub open spec fn entry_addrs_unique<T>(es: Seq<ParkedEntry<T>>) -> bool {
    forall|i: int, j: int|
        0 <= i < es.len() && 0 <= j < es.len() && i != j ==> es[i].addr != es[j].addr
}

/// Some entry is keyed by `addr`.
pub open spec fn has_entry<T>(es: Seq<ParkedEntry<T>>, addr: usize) -> bool {
    exists|i: int| 0 <= i < es.len() && es[i].addr == addr
}

/// Index of the entry keyed by `addr` (meaningful under `has_entry`).
pub open spec fn entry_idx<T>(es: Seq<ParkedEntry<T>>, addr: usize) -> int {
    choose|i: int| 0 <= i < es.len() && es[i].addr == addr
}

/// Holds each in-flight owner value, keyed by the bare address of its
/// submitted record.
pub struct Depot<T> {
    entries: Vec<ParkedEntry<T>>,
}

impl<T> Depot<T> {
    /// The parking spaces.
    pub closed spec fn entries_seq(self) -> Seq<ParkedEntry<T>> {
        self.entries@
    }

    /// Entry addresses are unique.
    pub open spec fn wf(self) -> bool {
        entry_addrs_unique(self.entries_seq())
    }

    /// Whether an owner value is parked under `addr`.
    pub open spec fn parked(self, addr: usize) -> bool {
        has_entry(self.entries_seq(), addr)
            && self.entries_seq()[entry_idx(self.entries_seq(), addr)].item is Some
    }

    /// The owner value parked under `addr` (meaningful under `parked`).
    pub open spec fn item_at(self, addr: usize) -> T {
        self.entries_seq()[entry_idx(self.entries_seq(), addr)].item.unwrap()
    }

    /// An empty depot: nothing in flight.
    pub fn new() -> (d: Depot<T>)
        ensures
            d.wf(),
            forall|a: usize| !d.parked(a),
    {
        Depot { entries: Vec::new() }
    }

    /// Parks `item` under `addr` for its in-flight period. Sealed: only the
    /// submission paths convert an owner into a parked token.
    pub(crate) fn park(&mut self, addr: usize, item: T)
        requires
            old(self).wf(),
            !old(self).parked(addr),
        ensures
            final(self).wf(),
            final(self).parked(addr),
            final(self).item_at(addr) == item,
            forall|b: usize| b != addr ==> final(self).parked(b) == old(self).parked(b),
            forall|b: usize|
                b != addr && old(self).parked(b) ==> final(self).item_at(b) == old(self).item_at(b),
    {
        let ghost es = self.entries@;
        let n = self.entries.len();
        let mut i: usize = 0;
        while i < n
            invariant
                n == es.len(),
                es == old(self).entries_seq(),
                self.entries@ == es,
                entry_addrs_unique(es),
                forall|j: int| 0 <= j < i ==> (#[trigger] es[j].addr) != addr,
            decreases n - i,
        {
            if self.entries[i].addr == addr {
                proof {
                    lemma_entry_at(es, i as int);
                }
                self.entries[i].item = Some(item);
                proof {
                    let es2 = self.entries@;
                    lemma_entry_update_keeps_addrs(es, i as int, es2[i as int]);
                }
                return;
            }
            i = i + 1;
        }
        proof {
            if has_entry(es, addr) {
                let k = entry_idx(es, addr);
                assert(0 <= k < es.len() && es[k].addr == addr);
            }
        }
        self.entries.push(ParkedEntry { addr, item: Some(item) });
        proof {
            let es2 = self.entries@;
            assert forall|i2: int, j2: int|
                0 <= i2 < es2.len() && 0 <= j2 < es2.len() && i2 != j2 implies es2[i2].addr
                != es2[j2].addr by {
                if i2 < es.len() && j2 < es.len() {
                    assert(es[i2].addr != es[j2].addr);
                }
            }
            assert(es2[es.len() as int].addr == addr);
            lemma_entry_at(es2, es.len() as int);
            assert forall|b: usize| b != addr && has_entry(es, b) implies has_entry(es2, b)
                && entry_idx(es2, b) == entry_idx(es, b) by {
                let k = entry_idx(es, b);
                assert(0 <= k < es.len() && es[k].addr == b);
                assert(es2[k].addr == b);
                lemma_entry_at(es2, k);
            }
            assert forall|b: usize| b != addr && has_entry(es2, b) implies has_entry(es, b) by {
                let k = entry_idx(es2, b);
                assert(0 <= k < es2.len() && es2[k].addr == b);
                assert(k != es.len());
                assert(es[k].addr == b);
            }
        }
    }

    /// Takes back the value parked under `addr`, ending its in-flight
    /// period; `None`, and no change, when nothing is parked there. Sealed:
    /// the trampoline is the sole authorized resumption point.
    pub(crate) fn reclaim(&mut self, addr: usize) -> (r: Option<T>)
        requires
            old(self).wf(),
        ensures
            final(self).wf(),
            old(self).parked(addr) ==> r == Some(old(self).item_at(addr)),
            !old(self).parked(addr)
                ==> r is None && final(self).entries_seq() == old(self).entries_seq(),
            !final(self).parked(addr),
            forall|b: usize| b != addr ==> final(self).parked(b) == old(self).parked(b),
            forall|b: usize|
                b != addr && old(self).parked(b) ==> final(self).item_at(b) == old(self).item_at(b),
    {
        let ghost es = self.entries@;
        let n = self.entries.len();
        let mut i: usize = 0;
        while i < n
            invariant
                n == es.len(),
                es == old(self).entries_seq(),
                self.entries@ == es,
                entry_addrs_unique(es),
                forall|j: int| 0 <= j < i ==> (#[trigger] es[j].addr) != addr,
            decreases n - i,
        {
            if self.entries[i].addr == addr {
                proof {
                    lemma_entry_at(es, i as int);
                }
                let r = self.entries[i].item.take();
                proof {
                    let es2 = self.entries@;
                    lemma_entry_update_keeps_addrs(es, i as int, es2[i as int]);
                    if es[i as int].item is None {
                        assert(es2 =~= es);
                    }
                }
                return r;
            }
            i = i + 1;
        }
        proof {
            if has_entry(es, addr) {
                let k = entry_idx(es, addr);
                assert(0 <= k < es.len() && es[k].addr == addr);
            }
        }
        None
    }
}

/// Under unique addresses, the entry found by address at index `i` is
/// exactly `es[i]`.
pub proof fn lemma_entry_at<T>(es: Seq<ParkedEntry<T>>, i: int)
    requires
        entry_addrs_unique(es),
        0 <= i < es.len(),
    ensures
        has_entry(es, es[i].addr),
        entry_idx(es, es[i].addr) == i,
{
    assert(has_entry(es, es[i].addr));
    let j = entry_idx(es, es[i].addr);
    assert(0 <= j < es.len() && es[j].addr == es[i].addr);
}

/// Updating index `i` with an entry keeping its address preserves address
/// uniqueness, every address's presence, and every index's position.
pub proof fn lemma_entry_update_keeps_addrs<T>(es: Seq<ParkedEntry<T>>, i: int, e: ParkedEntry<T>)
    requires
        entry_addrs_unique(es),
        0 <= i < es.len(),
        e.addr == es[i].addr,
    ensures
        entry_addrs_unique(es.update(i, e)),
        forall|a: usize| has_entry(es.update(i, e), a) == has_entry(es, a),
        forall|a: usize|
            has_entry(es, a) ==> #[trigger] entry_idx(es.update(i, e), a) == entry_idx(es, a),
{
    let es2 = es.update(i, e);
    assert forall|a: usize| has_entry(es2, a) == has_entry(es, a) by {
        if has_entry(es, a) {
            let k = entry_idx(es, a);
            assert(es2[k].addr == a);
        }
        if has_entry(es2, a) {
            let k = choose|k: int| 0 <= k < es2.len() && es2[k].addr == a;
            assert(es[k].addr == a);
        }
    }
    assert forall|a: usize| has_entry(es, a) implies #[trigger] entry_idx(es2, a) == entry_idx(
        es,
        a,
    ) by {
        let k = entry_idx(es, a);
        assert(0 <= k < es.len() && es[k].addr == a);
        assert(es2[k].addr == a);
        let k2 = entry_idx(es2, a);
        assert(0 <= k2 < es2.len() && es2[k2].addr == a);
        if k2 != k {
            assert(es2[k2].addr != es2[k].addr);
        }
    }
}

} // verus!
