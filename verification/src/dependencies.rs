//! What one script system declares that it reads and writes.

use crate::resource_id::are_disjoint;
use crate::resource_id::are_distinct;
use crate::resource_id::contains_id;
use crate::resource_id::copy_id;
use crate::resource_id::copy_ids;
use crate::resource_id::disjoint;
use crate::resource_id::distinct;
use shred::Accessor;
use shred::ResourceId;
use vstd::prelude::*;

verus! {

/// Which declarations make an accessor: nothing is both read and written,
/// nothing is written twice, and the reflection table, which every script
/// system reads, is not written.
pub open spec fn admissible(
    reads: Seq<ResourceId>,
    writes: Seq<ResourceId>,
    table: ResourceId,
) -> bool {
    &&& disjoint(reads, writes)
    &&& distinct(writes)
    &&& !writes.contains(table)
}

/// The resources one script system reads and writes, fixed when the system is
/// registered.
pub struct Dependencies {
    reads: Vec<ResourceId>,
    writes: Vec<ResourceId>,
    table: ResourceId,
}

impl Dependencies {
    /// Holds of every accessor: its declarations are admissible.
    #[verifier::type_invariant]
    pub closed spec fn wf(self) -> bool {
        admissible(self.reads@, self.writes@, self.table)
    }

    /// The declared reads, in the order of the declaration.
    pub closed spec fn declared_reads(self) -> Seq<ResourceId> {
        self.reads@
    }

    /// The declared writes, in the order of the declaration.
    pub closed spec fn declared_writes(self) -> Seq<ResourceId> {
        self.writes@
    }

    /// The identity under which the reflection table is stored.
    pub closed spec fn table_id(self) -> ResourceId {
        self.table
    }

    /// Everything the system reads: the declared reads, then the reflection
    /// table.
    pub open spec fn all_reads(self) -> Seq<ResourceId> {
        self.declared_reads().push(self.table_id())
    }

    /// A well-formed accessor has admissible declarations.
    pub proof fn lemma_wf_admissible(self)
        requires
            self.wf(),
        ensures
            admissible(self.declared_reads(), self.declared_writes(), self.table_id()),
    {
    }

    /// An accessor for the given declarations, where they are admissible.
    pub fn new(reads: &[ResourceId], writes: &[ResourceId], table: ResourceId) -> (made: Option<
        Dependencies,
    >)
        ensures
            made is Some <==> admissible(reads@, writes@, table),
            made matches Some(d) ==> {
                &&& d.wf()
                &&& d.declared_reads() == reads@
                &&& d.declared_writes() == writes@
                &&& d.table_id() == table
            },
    {
        if !are_disjoint(reads, writes) {
            return None;
        }
        if !are_distinct(writes) {
            return None;
        }
        if contains_id(writes, &table) {
            return None;
        }
        Some(Dependencies { reads: copy_ids(reads), writes: copy_ids(writes), table })
    }

    /// The declared reads.
    pub fn read_ids(&self) -> (ids: &Vec<ResourceId>)
        ensures
            ids@ == self.declared_reads(),
            self.wf(),
    {
        proof {
            use_type_invariant(self);
        }
        &self.reads
    }

    /// The declared writes.
    pub fn write_ids(&self) -> (ids: &Vec<ResourceId>)
        ensures
            ids@ == self.declared_writes(),
            self.wf(),
    {
        proof {
            use_type_invariant(self);
        }
        &self.writes
    }

    /// The identity under which the reflection table is stored.
    pub fn table(&self) -> (id: &ResourceId)
        ensures
            *id == self.table_id(),
            self.wf(),
    {
        proof {
            use_type_invariant(self);
        }
        &self.table
    }
}

/// In every well-formed accessor, no identity is both read and written: not
/// among the declared reads, and not the reflection table that is added to
/// them.
pub proof fn lemma_reads_writes_disjoint(d: Dependencies)
    requires
        d.wf(),
    ensures
        disjoint(d.all_reads(), d.declared_writes()),
        forall|id: ResourceId| !(d.all_reads().contains(id) && d.declared_writes().contains(id)),
{
    d.lemma_wf_admissible();
    let reads = d.all_reads();
    let writes = d.declared_writes();
    assert forall|i: int, j: int| 0 <= i < reads.len() && 0 <= j < writes.len() implies reads[i]
        != writes[j] by {
        if i < d.declared_reads().len() {
            assert(reads[i] == d.declared_reads()[i]);
        } else {
            assert(reads[i] == d.table_id());
            assert(writes.contains(writes[j]));
        }
    }
}

impl Accessor for Dependencies {
    /// There is no accessor without a declaration.
    fn try_new() -> (none: Option<Self>)
        ensures
            none is None,
    {
        None
    }

    /// The declared reads, then the reflection table. None of them is written.
    fn reads(&self) -> (ids: Vec<ResourceId>)
        ensures
            ids@ == self.all_reads(),
            disjoint(ids@, self.declared_writes()),
    {
        proof {
            use_type_invariant(self);
            lemma_reads_writes_disjoint(*self);
        }
        let mut ids = copy_ids(self.reads.as_slice());
        ids.push(copy_id(&self.table));
        ids
    }

    /// The declared writes, as they were declared.
    fn writes(&self) -> (ids: Vec<ResourceId>)
        ensures
            ids@ == self.declared_writes(),
    {
        copy_ids(self.writes.as_slice())
    }
}

} // verus!
