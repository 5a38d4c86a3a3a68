//! The reflection table: which resources scripts may see.
//!
//! A script never gets a resource itself. It gets a view that says which
//! resource it stands for and whether the script may write it, and only for
//! resources that were registered as visible to scripts.

use crate::resource_id::contains_id;
use crate::resource_id::copy_id;
use shred::ResourceId;
use vstd::prelude::*;

verus! {

/// How a script holds a resource.
#[derive(Clone, Copy, Debug, PartialEq, Eq, Structural)]
pub enum Access {
    /// Borrowed together with other readers.
    Shared,
    /// Borrowed by this script alone.
    Exclusive,
}

/// What a script sees of one resource: its identity and how it is held.
pub struct CapabilityView {
    pub id: ResourceId,
    pub access: Access,
}

/// The resources that are visible to scripts.
pub struct ReflectionTable {
    registered: Vec<ResourceId>,
}

impl ReflectionTable {
    /// The identities that were registered.
    pub closed spec fn view(self) -> Set<ResourceId> {
        self.registered@.to_set()
    }

    /// Every identity of `ids` was registered.
    pub open spec fn covers(self, ids: Seq<ResourceId>) -> bool {
        forall|i: int| 0 <= i < ids.len() ==> self@.contains(#[trigger] ids[i])
    }

    /// A table in which nothing is registered.
    pub fn new() -> (table: ReflectionTable)
        ensures
            table@ == Set::<ResourceId>::empty(),
    {
        let table = ReflectionTable { registered: Vec::new() };
        assert(table@ =~= Set::<ResourceId>::empty());
        table
    }

    /// Makes the resource `id` visible to scripts.
    pub fn register(&mut self, id: ResourceId)
        ensures
            final(self)@ == old(self)@.insert(id),
    {
        if !contains_id(self.registered.as_slice(), &id) {
            self.registered.push(id);
            assert forall|other: ResourceId| self.registered@.contains(other) <==> (other == id
                || old(self).registered@.contains(other)) by {
                if other == id {
                    assert(self.registered@[self.registered@.len() - 1] == id);
                }
                if old(self).registered@.contains(other) {
                    let k = choose|k: int|
                        0 <= k < old(self).registered@.len() && old(self).registered@[k] == other;
                    assert(self.registered@[k] == other);
                }
            }
        }
        assert(self@ =~= old(self)@.insert(id));
    }

    /// Whether the resource `id` is visible to scripts.
    pub fn is_registered(&self, id: &ResourceId) -> (known: bool)
        ensures
            known == self@.contains(*id),
    {
        contains_id(self.registered.as_slice(), id)
    }

    /// A read-only view of the resource `id`, where it is visible to scripts.
    pub fn get(&self, id: &ResourceId) -> (seen: Option<CapabilityView>)
        ensures
            seen is Some <==> self@.contains(*id),
            seen matches Some(v) ==> v.id == *id && v.access == Access::Shared,
    {
        if self.is_registered(id) {
            Some(CapabilityView { id: copy_id(id), access: Access::Shared })
        } else {
            None
        }
    }

    /// A writable view of the resource `id`, where it is visible to scripts.
    pub fn get_mut(&self, id: &ResourceId) -> (seen: Option<CapabilityView>)
        ensures
            seen is Some <==> self@.contains(*id),
            seen matches Some(v) ==> v.id == *id && v.access == Access::Exclusive,
    {
        if self.is_registered(id) {
            Some(CapabilityView { id: copy_id(id), access: Access::Exclusive })
        } else {
            None
        }
    }

    /// The first resource of `ids` that scripts may not see, if there is one.
    pub fn find_hidden(&self, ids: &[ResourceId]) -> (hidden: Option<ResourceId>)
        ensures
            hidden == first_hidden(self@, ids@),
    {
        let mut i: usize = 0;
        assert(ids@.skip(0) == ids@);
        while i < ids.len()
            invariant
                i <= ids@.len(),
                first_hidden(self@, ids@) == first_hidden(self@, ids@.skip(i as int)),
            decreases ids@.len() - i,
        {
            assert(ids@.skip(i as int)[0] == ids@[i as int]);
            assert(ids@.skip(i as int).skip(1) == ids@.skip(i + 1));
            if !self.is_registered(&ids[i]) {
                return Some(copy_id(&ids[i]));
            }
            i = i + 1;
        }
        None
    }
}

/// The first identity of `ids` that is not among `visible`, if there is one.
pub open spec fn first_hidden(visible: Set<ResourceId>, ids: Seq<ResourceId>) -> Option<ResourceId>
    decreases ids.len(),
{
    if ids.len() == 0 {
        None
    } else if !visible.contains(ids[0]) {
        Some(ids[0])
    } else {
        first_hidden(visible, ids.skip(1))
    }
}

/// Nothing of `ids` is hidden exactly when every identity of it is visible.
pub proof fn lemma_none_hidden(visible: Set<ResourceId>, ids: Seq<ResourceId>)
    ensures
        first_hidden(visible, ids) is None <==> forall|i: int|
            0 <= i < ids.len() ==> visible.contains(#[trigger] ids[i]),
        first_hidden(visible, ids) matches Some(id) ==> ids.contains(id) && !visible.contains(id),
    decreases ids.len(),
{
    if ids.len() > 0 {
        lemma_none_hidden(visible, ids.skip(1));
        if first_hidden(visible, ids) is None {
            assert forall|i: int| 0 <= i < ids.len() implies visible.contains(
                #[trigger] ids[i],
            ) by {
                if i > 0 {
                    assert(ids.skip(1)[i - 1] == ids[i]);
                }
            }
        } else if visible.contains(ids[0]) {
            let id = first_hidden(visible, ids.skip(1))->0;
            let k = choose|k: int| 0 <= k < ids.skip(1).len() && ids.skip(1)[k] == id;
            assert(ids[k + 1] == id);
            assert(!visible.contains(ids[k + 1]));
        } else {
            assert(ids[0] == first_hidden(visible, ids)->0);
        }
    }
}

} // verus!
