//! Which resources are borrowed at the moment, and how.
//!
//! The store lends each resource to many readers or to one writer. The ledger
//! keeps the borrows that script systems hold, oldest first, so that a borrow
//! that the store would refuse is seen before it is asked for.

use crate::resource_id::contains_id;
use crate::resource_id::disjoint;
use crate::resource_id::distinct;
use shred::ResourceId;
use vstd::prelude::*;

verus! {

/// The outstanding borrows: one entry per shared borrow and one per exclusive
/// borrow, each list in the order in which the borrows were taken.
#[verifier::ext_equal]
pub struct Borrows {
    pub shared: Seq<ResourceId>,
    pub exclusive: Seq<ResourceId>,
}

impl Borrows {
    /// One writer or many readers: nothing is borrowed both ways, nor
    /// exclusively twice.
    pub open spec fn wf(self) -> bool {
        &&& disjoint(self.shared, self.exclusive)
        &&& distinct(self.exclusive)
    }

    /// A shared borrow of `id` is granted while nobody writes it.
    pub open spec fn can_share(self, id: ResourceId) -> bool {
        !self.exclusive.contains(id)
    }

    /// An exclusive borrow of `id` is granted while nobody reads or writes it.
    pub open spec fn can_own(self, id: ResourceId) -> bool {
        !self.exclusive.contains(id) && !self.shared.contains(id)
    }

    /// Nothing is borrowed.
    pub open spec fn is_clear(self) -> bool {
        self.shared.len() == 0 && self.exclusive.len() == 0
    }

    /// The borrows after one more shared borrow.
    pub open spec fn share(self, id: ResourceId) -> Borrows {
        Borrows { shared: self.shared.push(id), exclusive: self.exclusive }
    }

    /// The borrows after one more exclusive borrow.
    pub open spec fn own(self, id: ResourceId) -> Borrows {
        Borrows { shared: self.shared, exclusive: self.exclusive.push(id) }
    }

    /// The oldest borrows: the first `shared_len` shared and the first
    /// `exclusive_len` exclusive ones.
    pub open spec fn oldest(self, shared_len: int, exclusive_len: int) -> Borrows {
        Borrows {
            shared: self.shared.take(shared_len),
            exclusive: self.exclusive.take(exclusive_len),
        }
    }
}

/// A borrow that is granted keeps the rule of one writer or many readers.
pub proof fn lemma_granted_borrow_keeps_rule(borrows: Borrows, id: ResourceId)
    requires
        borrows.wf(),
    ensures
        borrows.can_share(id) ==> borrows.share(id).wf(),
        borrows.can_own(id) ==> borrows.own(id).wf(),
{
}

/// Giving back the newest borrows keeps the rule of one writer or many
/// readers.
pub proof fn lemma_oldest_keeps_rule(borrows: Borrows, shared_len: int, exclusive_len: int)
    requires
        borrows.wf(),
        0 <= shared_len <= borrows.shared.len(),
        0 <= exclusive_len <= borrows.exclusive.len(),
    ensures
        borrows.oldest(shared_len, exclusive_len).wf(),
{
}

/// The borrows that script systems hold.
pub struct BorrowLedger {
    shared: Vec<ResourceId>,
    exclusive: Vec<ResourceId>,
}

impl BorrowLedger {
    /// The outstanding borrows.
    pub closed spec fn view(self) -> Borrows {
        Borrows { shared: self.shared@, exclusive: self.exclusive@ }
    }

    /// A ledger with no borrows.
    pub fn new() -> (ledger: BorrowLedger)
        ensures
            ledger@.wf(),
            ledger@.is_clear(),
    {
        BorrowLedger { shared: Vec::new(), exclusive: Vec::new() }
    }

    /// How many shared borrows are outstanding.
    pub fn shared_len(&self) -> (n: usize)
        ensures
            n == self@.shared.len(),
    {
        self.shared.len()
    }

    /// How many exclusive borrows are outstanding.
    pub fn exclusive_len(&self) -> (n: usize)
        ensures
            n == self@.exclusive.len(),
    {
        self.exclusive.len()
    }

    /// Whether a shared borrow of `id` would be granted.
    pub fn is_shareable(&self, id: &ResourceId) -> (ok: bool)
        ensures
            ok == self@.can_share(*id),
    {
        !contains_id(self.exclusive.as_slice(), id)
    }

    /// Whether an exclusive borrow of `id` would be granted.
    pub fn is_ownable(&self, id: &ResourceId) -> (ok: bool)
        ensures
            ok == self@.can_own(*id),
    {
        !contains_id(self.exclusive.as_slice(), id) && !contains_id(self.shared.as_slice(), id)
    }

    /// Records a shared borrow of `id`.
    pub fn borrow_shared(&mut self, id: ResourceId)
        requires
            old(self)@.wf(),
            old(self)@.can_share(id),
        ensures
            final(self)@.wf(),
            final(self)@ == old(self)@.share(id),
    {
        self.shared.push(id);
    }

    /// Records an exclusive borrow of `id`.
    pub fn borrow_exclusive(&mut self, id: ResourceId)
        requires
            old(self)@.wf(),
            old(self)@.can_own(id),
        ensures
            final(self)@.wf(),
            final(self)@ == old(self)@.own(id),
    {
        self.exclusive.push(id);
    }

    /// Gives back every borrow that was taken after the ledger held
    /// `shared_len` shared and `exclusive_len` exclusive borrows.
    pub fn release_to(&mut self, shared_len: usize, exclusive_len: usize)
        requires
            old(self)@.wf(),
            shared_len <= old(self)@.shared.len(),
            exclusive_len <= old(self)@.exclusive.len(),
        ensures
            final(self)@.wf(),
            final(self)@ == old(self)@.oldest(shared_len as int, exclusive_len as int),
    {
        self.shared.truncate(shared_len);
        self.exclusive.truncate(exclusive_len);
    }
}

} // verus!
