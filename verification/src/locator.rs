//! Bidirectional mapping between an owner object's address and the address of
//! one work record embedded in it.

use vstd::prelude::*;

verus! {

/// Maps between an owner's address and the address of the record embedded in
/// it, for one (owner type, slot) pair.
///
/// Both directions are derived from the single declared field offset, so they
/// are exact structural inverses by construction. Neither direction ever
/// dereferences: this is pure address arithmetic.
#[derive(Clone, Copy)]
pub struct FieldLocator {
    /// Byte offset of the embedded record within the owner object.
    pub offset: usize,
}

impl FieldLocator {
    /// Address of the record embedded in the owner at `owner_addr`.
    pub open spec fn locates(self, owner_addr: usize) -> usize {
        (owner_addr + self.offset) as usize
    }

    /// Address of the owner whose embedded record sits at `record_addr`.
    pub open spec fn resolves(self, record_addr: usize) -> usize {
        (record_addr - self.offset) as usize
    }

    /// Builds the locator for one declared field from its offset alone; both
    /// directions come from this single declaration.
    pub fn from_offset(offset: usize) -> (l: FieldLocator)
        ensures
            l.offset == offset,
    {
        FieldLocator { offset }
    }

    /// Owner address to record address.
    pub fn locate(&self, owner_addr: usize) -> (record_addr: usize)
        requires
            owner_addr + self.offset <= usize::MAX,
        ensures
            record_addr == self.locates(owner_addr),
            record_addr == owner_addr + self.offset,
    {
        owner_addr + self.offset
    }

    /// Record address back to owner address; the inverse of [`Self::locate`].
    pub fn resolve(&self, record_addr: usize) -> (owner_addr: usize)
        requires
            record_addr >= self.offset,
        ensures
            owner_addr == self.resolves(record_addr),
            owner_addr == record_addr - self.offset,
    {
        record_addr - self.offset
    }
}

/// For every owner address whose record address fits, and every record
/// address at or past the offset, the two directions undo each other exactly.
pub proof fn lemma_locator_round_trip(l: FieldLocator, owner_addr: usize, record_addr: usize)
    requires
        owner_addr + l.offset <= usize::MAX,
        record_addr >= l.offset,
    ensures
        l.resolves(l.locates(owner_addr)) == owner_addr,
        l.locates(l.resolves(record_addr)) == record_addr,
{
}

} // verus!
