//! The resources that one run of a script system borrows.

use crate::borrow::BorrowLedger;
use crate::borrow::Borrows;
use crate::dependencies::Dependencies;
use crate::reflection::Access;
use crate::resource_id::copy_id;
use crate::resource_id::copy_ids;
use crate::resource_id::disjoint;
use crate::resource_id::distinct;
use crate::world::world_ids;
use shred::ResourceId;
use shred::World;
use vstd::prelude::*;

verus! {

/// Why a resource cannot be borrowed.
pub enum FetchError {
    /// The resource was never inserted into the store.
    Missing(ResourceId),
    /// The resource is borrowed in a way that excludes the borrow asked for.
    Borrowed(ResourceId),
}

/// Why the store would refuse to lend `id` in the way `access` says, if it
/// would.
pub open spec fn refusal(stored: Set<ResourceId>, borrows: Borrows, id: ResourceId, access: Access)
    -> Option<FetchError> {
    if !stored.contains(id) {
        Some(FetchError::Missing(id))
    } else if access is Exclusive && !borrows.can_own(id) {
        Some(FetchError::Borrowed(id))
    } else if access is Shared && !borrows.can_share(id) {
        Some(FetchError::Borrowed(id))
    } else {
        None
    }
}

/// The refusal for the first resource of `ids` that the store would not lend.
pub open spec fn first_refusal_in(
    stored: Set<ResourceId>,
    borrows: Borrows,
    ids: Seq<ResourceId>,
    access: Access,
) -> Option<FetchError>
    decreases ids.len(),
{
    if ids.len() == 0 {
        None
    } else if refusal(stored, borrows, ids[0], access) is Some {
        refusal(stored, borrows, ids[0], access)
    } else {
        first_refusal_in(stored, borrows, ids.skip(1), access)
    }
}

/// The refusal that a fetch for `accessor` meets first. The declared reads
/// are asked for first, in the order of the declaration, then the declared
/// writes, then the reflection table.
pub open spec fn first_refusal(accessor: Dependencies, stored: Set<ResourceId>, borrows: Borrows)
    -> Option<FetchError> {
    if first_refusal_in(stored, borrows, accessor.declared_reads(), Access::Shared) is Some {
        first_refusal_in(stored, borrows, accessor.declared_reads(), Access::Shared)
    } else if first_refusal_in(stored, borrows, accessor.declared_writes(), Access::Exclusive)
        is Some {
        first_refusal_in(stored, borrows, accessor.declared_writes(), Access::Exclusive)
    } else {
        refusal(stored, borrows, accessor.table_id(), Access::Shared)
    }
}

/// Nothing of `ids` is refused exactly when no single resource is.
pub proof fn lemma_none_refused(
    stored: Set<ResourceId>,
    borrows: Borrows,
    ids: Seq<ResourceId>,
    access: Access,
)
    ensures
        first_refusal_in(stored, borrows, ids, access) is None <==> forall|i: int|
            0 <= i < ids.len() ==> refusal(stored, borrows, #[trigger] ids[i], access) is None,
    decreases ids.len(),
{
    if ids.len() > 0 {
        lemma_none_refused(stored, borrows, ids.skip(1), access);
        if first_refusal_in(stored, borrows, ids, access) is None {
            assert forall|i: int| 0 <= i < ids.len() implies refusal(
                stored,
                borrows,
                #[trigger] ids[i],
                access,
            ) is None by {
                if i > 0 {
                    assert(ids.skip(1)[i - 1] == ids[i]);
                }
            }
        } else if refusal(stored, borrows, ids[0], access) is None {
            let k = choose|k: int|
                0 <= k < ids.skip(1).len() && !(refusal(
                    stored,
                    borrows,
                    #[trigger] ids.skip(1)[k],
                    access,
                ) is None);
            assert(ids[k + 1] == ids.skip(1)[k]);
        }
    }
}

/// The borrows after one more borrow of `id`, held the way `access` says.
pub open spec fn lent(borrows: Borrows, id: ResourceId, access: Access) -> Borrows {
    if access is Shared {
        borrows.share(id)
    } else {
        borrows.own(id)
    }
}

/// The borrows after the store lent each resource of `ids` in turn, the way
/// `access` says, each one judged by what is borrowed at that moment. `None`
/// where the store refuses one of them.
pub open spec fn lend_each(
    stored: Set<ResourceId>,
    borrows: Borrows,
    ids: Seq<ResourceId>,
    access: Access,
) -> Option<Borrows>
    decreases ids.len(),
{
    if ids.len() == 0 {
        Some(borrows)
    } else if refusal(stored, borrows, ids[0], access) is Some {
        None
    } else {
        lend_each(stored, lent(borrows, ids[0], access), ids.skip(1), access)
    }
}

/// The borrows after a fetch for `accessor` that takes one borrow after the
/// other: the declared reads, the declared writes, the reflection table.
/// `None` where the store refuses one of them.
pub open spec fn lend(accessor: Dependencies, stored: Set<ResourceId>, borrows: Borrows) -> Option<
    Borrows,
> {
    match lend_each(stored, borrows, accessor.declared_reads(), Access::Shared) {
        None => None,
        Some(read) => match lend_each(
            stored,
            read,
            accessor.declared_writes(),
            Access::Exclusive,
        ) {
            None => None,
            Some(written) => if refusal(stored, written, accessor.table_id(), Access::Shared)
                is Some {
                None
            } else {
                Some(written.share(accessor.table_id()))
            },
        },
    }
}

/// Whether `ids` are lent does not depend on borrows of other resources.
proof fn lemma_other_borrows(
    stored: Set<ResourceId>,
    borrows: Borrows,
    other: Borrows,
    ids: Seq<ResourceId>,
    access: Access,
)
    requires
        forall|i: int|
            0 <= i < ids.len() ==> (borrows.exclusive.contains(#[trigger] ids[i])
                <==> other.exclusive.contains(ids[i])),
        access is Exclusive ==> forall|i: int|
            0 <= i < ids.len() ==> (borrows.shared.contains(#[trigger] ids[i])
                <==> other.shared.contains(ids[i])),
    ensures
        first_refusal_in(stored, borrows, ids, access) == first_refusal_in(
            stored,
            other,
            ids,
            access,
        ),
    decreases ids.len(),
{
    if ids.len() > 0 {
        assert(ids[0] == ids[0]);
        assert forall|i: int| 0 <= i < ids.skip(1).len() implies (borrows.exclusive.contains(
            #[trigger] ids.skip(1)[i],
        ) <==> other.exclusive.contains(ids.skip(1)[i])) by {
            assert(ids.skip(1)[i] == ids[i + 1]);
        }
        if access is Exclusive {
            assert forall|i: int| 0 <= i < ids.skip(1).len() implies (borrows.shared.contains(
                #[trigger] ids.skip(1)[i],
            ) <==> other.shared.contains(ids.skip(1)[i])) by {
                assert(ids.skip(1)[i] == ids[i + 1]);
            }
        }
        lemma_other_borrows(stored, borrows, other, ids.skip(1), access);
    }
}

/// Shared borrows are lent one after the other exactly when each is lent by
/// itself, and then they are added to the shared borrows in their order.
proof fn lemma_lend_shared(stored: Set<ResourceId>, borrows: Borrows, ids: Seq<ResourceId>)
    ensures
        lend_each(stored, borrows, ids, Access::Shared) is Some <==> first_refusal_in(
            stored,
            borrows,
            ids,
            Access::Shared,
        ) is None,
        lend_each(stored, borrows, ids, Access::Shared) matches Some(after) ==> after == (Borrows {
            shared: borrows.shared + ids,
            exclusive: borrows.exclusive,
        }),
    decreases ids.len(),
{
    if ids.len() == 0 {
        assert(borrows.shared + ids =~= borrows.shared);
    } else if refusal(stored, borrows, ids[0], Access::Shared) is None {
        let next = borrows.share(ids[0]);
        lemma_lend_shared(stored, next, ids.skip(1));
        lemma_other_borrows(stored, next, borrows, ids.skip(1), Access::Shared);
        assert(next.shared + ids.skip(1) =~= borrows.shared + ids);
    }
}

/// Exclusive borrows of distinct resources are lent one after the other
/// exactly when each is lent by itself, and then they are added to the
/// exclusive borrows in their order.
proof fn lemma_lend_exclusive(stored: Set<ResourceId>, borrows: Borrows, ids: Seq<ResourceId>)
    requires
        distinct(ids),
    ensures
        lend_each(stored, borrows, ids, Access::Exclusive) is Some <==> first_refusal_in(
            stored,
            borrows,
            ids,
            Access::Exclusive,
        ) is None,
        lend_each(stored, borrows, ids, Access::Exclusive) matches Some(after) ==> after
            == (Borrows { shared: borrows.shared, exclusive: borrows.exclusive + ids }),
    decreases ids.len(),
{
    if ids.len() == 0 {
        assert(borrows.exclusive + ids =~= borrows.exclusive);
    } else if refusal(stored, borrows, ids[0], Access::Exclusive) is None {
        let next = borrows.own(ids[0]);
        let rest = ids.skip(1);
        assert forall|i: int, j: int| 0 <= i < j < rest.len() implies rest[i] != rest[j] by {
            assert(rest[i] == ids[i + 1] && rest[j] == ids[j + 1]);
        }
        lemma_lend_exclusive(stored, next, rest);
        assert forall|i: int| 0 <= i < rest.len() implies (next.exclusive.contains(
            #[trigger] rest[i],
        ) <==> borrows.exclusive.contains(rest[i])) by {
            assert(rest[i] == ids[i + 1]);
            assert(rest[i] != ids[0]);
            if next.exclusive.contains(rest[i]) {
                let k = choose|k: int| 0 <= k < next.exclusive.len() && next.exclusive[k] == rest[i];
                assert(k < borrows.exclusive.len());
                assert(borrows.exclusive[k] == rest[i]);
            }
            if borrows.exclusive.contains(rest[i]) {
                let k = choose|k: int|
                    0 <= k < borrows.exclusive.len() && borrows.exclusive[k] == rest[i];
                assert(next.exclusive[k] == rest[i]);
            }
        }
        lemma_other_borrows(stored, next, borrows, rest, Access::Exclusive);
        assert(next.exclusive + rest =~= borrows.exclusive + ids);
    }
}

/// An identity is in a list that was appended to exactly when it was in the
/// list before or is among what was appended.
proof fn lemma_appended(before: Seq<ResourceId>, added: Seq<ResourceId>, id: ResourceId)
    ensures
        (before + added).contains(id) <==> before.contains(id) || added.contains(id),
{
    let all = before + added;
    if all.contains(id) {
        let k = choose|k: int| 0 <= k < all.len() && all[k] == id;
        if k < before.len() {
            assert(before[k] == id);
        } else {
            assert(added[k - before.len()] == id);
        }
    }
    if before.contains(id) {
        let k = choose|k: int| 0 <= k < before.len() && before[k] == id;
        assert(all[k] == id);
    }
    if added.contains(id) {
        let k = choose|k: int| 0 <= k < added.len() && added[k] == id;
        assert(all[k + before.len()] == id);
    }
}

/// A resource that is written is neither read nor written a second time.
proof fn lemma_written_once(reads: Seq<ResourceId>, writes: Seq<ResourceId>, j: int)
    requires
        disjoint(reads, writes),
        distinct(writes),
        0 <= j < writes.len(),
    ensures
        !reads.contains(writes[j]),
        !writes.take(j).contains(writes[j]),
{
    if reads.contains(writes[j]) {
        let k = choose|k: int| 0 <= k < reads.len() && reads[k] == writes[j];
        assert(reads[k] != writes[j]);
    }
    if writes.take(j).contains(writes[j]) {
        let k = choose|k: int| 0 <= k < j && writes.take(j)[k] == writes[j];
        assert(writes[k] != writes[j]);
    }
}

/// An accessor never stands in its own way. A fetch that takes its borrows
/// one after the other, each judged by what is borrowed at that moment, is
/// refused only where the borrows from before the fetch refuse one of the
/// resources by itself; and where it is not refused, it adds the reads and
/// the reflection table to the shared borrows and the writes to the
/// exclusive ones, and the rule of one writer or many readers still holds.
pub proof fn lemma_no_self_conflict(
    accessor: Dependencies,
    stored: Set<ResourceId>,
    borrows: Borrows,
)
    requires
        accessor.wf(),
        borrows.wf(),
    ensures
        lend(accessor, stored, borrows) is Some <==> first_refusal(accessor, stored, borrows)
            is None,
        lend(accessor, stored, borrows) matches Some(after) ==> {
            &&& after.wf()
            &&& after.shared == borrows.shared + accessor.all_reads()
            &&& after.exclusive == borrows.exclusive + accessor.declared_writes()
        },
{
    accessor.lemma_wf_admissible();
    let reads = accessor.declared_reads();
    let writes = accessor.declared_writes();
    let table = accessor.table_id();
    lemma_lend_shared(stored, borrows, reads);
    if lend_each(stored, borrows, reads, Access::Shared) is Some {
        let read = Borrows { shared: borrows.shared + reads, exclusive: borrows.exclusive };
        lemma_lend_exclusive(stored, read, writes);
        assert forall|i: int| 0 <= i < writes.len() implies (read.shared.contains(
            #[trigger] writes[i],
        ) <==> borrows.shared.contains(writes[i])) by {
            lemma_appended(borrows.shared, reads, writes[i]);
            if reads.contains(writes[i]) {
                let k = choose|k: int| 0 <= k < reads.len() && reads[k] == writes[i];
                assert(reads[k] != writes[i]);
            }
        }
        lemma_other_borrows(stored, read, borrows, writes, Access::Exclusive);
        if lend_each(stored, read, writes, Access::Exclusive) is Some {
            let written = Borrows { shared: read.shared, exclusive: read.exclusive + writes };
            lemma_appended(borrows.exclusive, writes, table);
            assert(refusal(stored, written, table, Access::Shared) == refusal(
                stored,
                borrows,
                table,
                Access::Shared,
            ));
            if refusal(stored, written, table, Access::Shared) is None {
                let after = written.share(table);
                assert(after.shared =~= borrows.shared + accessor.all_reads());
                lemma_none_refused(stored, borrows, reads, Access::Shared);
                lemma_none_refused(stored, borrows, writes, Access::Exclusive);
                assert forall|i: int, j: int|
                    0 <= i < after.shared.len() && 0 <= j < after.exclusive.len() implies after.shared[i]
                    != after.exclusive[j] by {
                    let shared = after.shared[i];
                    let owned = after.exclusive[j];
                    lemma_appended(borrows.shared, accessor.all_reads(), shared);
                    lemma_appended(borrows.exclusive, writes, owned);
                    lemma_appended(reads, seq![table], shared);
                    assert(after.shared.contains(shared));
                    assert(after.exclusive.contains(owned));
                    if shared == owned {
                        if writes.contains(owned) {
                            let w = choose|w: int| 0 <= w < writes.len() && writes[w] == owned;
                            assert(refusal(stored, borrows, writes[w], Access::Exclusive) is None);
                            if reads.contains(shared) {
                                let r = choose|r: int| 0 <= r < reads.len() && reads[r] == shared;
                                assert(reads[r] != writes[w]);
                            }
                            if seq![table].contains(shared) {
                                assert(shared == table);
                            }
                        } else {
                            assert(borrows.exclusive.contains(owned));
                            if borrows.shared.contains(shared) {
                                let a = choose|a: int|
                                    0 <= a < borrows.shared.len() && borrows.shared[a] == shared;
                                let b = choose|b: int|
                                    0 <= b < borrows.exclusive.len() && borrows.exclusive[b]
                                        == owned;
                                assert(borrows.shared[a] != borrows.exclusive[b]);
                            }
                            if reads.contains(shared) {
                                let r = choose|r: int| 0 <= r < reads.len() && reads[r] == shared;
                                assert(refusal(stored, borrows, reads[r], Access::Shared) is None);
                            }
                            if seq![table].contains(shared) {
                                assert(shared == table);
                            }
                        }
                    }
                }
                assert forall|i: int, j: int| 0 <= i < j < after.exclusive.len() implies after.exclusive[i]
                    != after.exclusive[j] by {
                    let n = borrows.exclusive.len() as int;
                    if j < n {
                    } else if i >= n {
                        assert(writes[i - n] != writes[j - n]);
                    } else {
                        assert(refusal(stored, borrows, writes[j - n], Access::Exclusive) is None);
                        assert(borrows.exclusive.contains(borrows.exclusive[i]));
                    }
                }
            }
        }
    }
}

/// Whether the store would lend `id` in the way `access` says.
pub fn check_one(world: &World, ledger: &BorrowLedger, id: &ResourceId, access: Access) -> (refused:
    Option<FetchError>)
    ensures
        refused == refusal(world_ids(*world), ledger@, *id, access),
{
    if !world.has_value_raw(copy_id(id)) {
        return Some(FetchError::Missing(copy_id(id)));
    }
    let granted = match access {
        Access::Shared => ledger.is_shareable(id),
        Access::Exclusive => ledger.is_ownable(id),
    };
    if granted {
        None
    } else {
        Some(FetchError::Borrowed(copy_id(id)))
    }
}

/// Whether the store would lend every resource of `ids` in the way `access`
/// says, and if not, why it refuses the first one.
pub fn check_all(world: &World, ledger: &BorrowLedger, ids: &[ResourceId], access: Access) -> (refused:
    Option<FetchError>)
    ensures
        refused == first_refusal_in(world_ids(*world), ledger@, ids@, access),
{
    let mut i: usize = 0;
    assert(ids@.skip(0) == ids@);
    while i < ids.len()
        invariant
            i <= ids@.len(),
            first_refusal_in(world_ids(*world), ledger@, ids@, access) == first_refusal_in(
                world_ids(*world),
                ledger@,
                ids@.skip(i as int),
                access,
            ),
        decreases ids@.len() - i,
    {
        let refused = check_one(world, ledger, &ids[i], access);
        assert(ids@.skip(i as int)[0] == ids@[i as int]);
        assert(ids@.skip(i as int).skip(1) == ids@.skip(i + 1));
        if refused.is_some() {
            return refused;
        }
        i = i + 1;
    }
    None
}

/// The borrows of one run: a shared borrow for each declared read and for the
/// reflection table, an exclusive borrow for each declared write.
pub struct ScriptSystemData {
    reads: Vec<ResourceId>,
    writes: Vec<ResourceId>,
    table: ResourceId,
    shared_before: usize,
    exclusive_before: usize,
}

impl ScriptSystemData {
    /// The resources borrowed for reading, in the order of the declaration.
    pub closed spec fn reads(self) -> Seq<ResourceId> {
        self.reads@
    }

    /// The resources borrowed for writing, in the order of the declaration.
    pub closed spec fn writes(self) -> Seq<ResourceId> {
        self.writes@
    }

    /// The identity of the reflection table, which is borrowed for reading.
    pub closed spec fn table(self) -> ResourceId {
        self.table
    }

    /// How many shared borrows were outstanding before this fetch.
    pub closed spec fn shared_before(self) -> nat {
        self.shared_before as nat
    }

    /// How many exclusive borrows were outstanding before this fetch.
    pub closed spec fn exclusive_before(self) -> nat {
        self.exclusive_before as nat
    }

    /// The borrows are those that `accessor` declares, taken from `before`
    /// and recorded in `after`.
    pub open spec fn fetched(self, accessor: Dependencies, before: Borrows, after: Borrows) -> bool {
        &&& self.reads() == accessor.declared_reads()
        &&& self.writes() == accessor.declared_writes()
        &&& self.table() == accessor.table_id()
        &&& self.shared_before() == before.shared.len()
        &&& self.exclusive_before() == before.exclusive.len()
        &&& after.wf()
        &&& after.shared == before.shared + accessor.all_reads()
        &&& after.exclusive == before.exclusive + accessor.declared_writes()
    }

    /// Borrows what `accessor` declares: first the reads, in the order of the
    /// declaration, then the writes, then the reflection table.
    pub fn fetch(accessor: &Dependencies, world: &World, ledger: &mut BorrowLedger) -> (data: Self)
        requires
            old(ledger)@.wf(),
            first_refusal(*accessor, world_ids(*world), old(ledger)@) is None,
        ensures
            data.fetched(*accessor, old(ledger)@, final(ledger)@),
            lend(*accessor, world_ids(*world), old(ledger)@) == Some(final(ledger)@),
    {
        let reads = accessor.read_ids();
        let writes = accessor.write_ids();
        let table = accessor.table();
        let shared_before = ledger.shared_len();
        let exclusive_before = ledger.exclusive_len();
        proof {
            accessor.lemma_wf_admissible();
            lemma_no_self_conflict(*accessor, world_ids(*world), old(ledger)@);
            lemma_none_refused(world_ids(*world), old(ledger)@, reads@, Access::Shared);
            lemma_none_refused(world_ids(*world), old(ledger)@, writes@, Access::Exclusive);
        }
        let mut i: usize = 0;
        while i < reads.len()
            invariant
                i <= reads@.len(),
                ledger@.wf(),
                ledger@.shared == old(ledger)@.shared + reads@.take(i as int),
                ledger@.exclusive == old(ledger)@.exclusive,
                forall|k: int|
                    0 <= k < reads@.len() ==> refusal(
                        world_ids(*world),
                        old(ledger)@,
                        #[trigger] reads@[k],
                        Access::Shared,
                    ) is None,
            decreases reads@.len() - i,
        {
            assert(refusal(world_ids(*world), old(ledger)@, reads@[i as int], Access::Shared) is None);
            ledger.borrow_shared(copy_id(&reads[i]));
            assert(reads@.take(i + 1) == reads@.take(i as int).push(reads@[i as int]));
            i = i + 1;
        }
        assert(reads@.take(reads@.len() as int) == reads@);
        let mut j: usize = 0;
        while j < writes.len()
            invariant
                j <= writes@.len(),
                ledger@.wf(),
                ledger@.shared == old(ledger)@.shared + reads@,
                ledger@.exclusive == old(ledger)@.exclusive + writes@.take(j as int),
                disjoint(reads@, writes@),
                distinct(writes@),
                forall|k: int|
                    0 <= k < writes@.len() ==> refusal(
                        world_ids(*world),
                        old(ledger)@,
                        #[trigger] writes@[k],
                        Access::Exclusive,
                    ) is None,
            decreases writes@.len() - j,
        {
            let id = copy_id(&writes[j]);
            proof {
                assert(refusal(world_ids(*world), old(ledger)@, writes@[j as int], Access::Exclusive) is None);
                assert(old(ledger)@.can_own(id));
                lemma_appended(old(ledger)@.exclusive, writes@.take(j as int), id);
                lemma_appended(old(ledger)@.shared, reads@, id);
                lemma_written_once(reads@, writes@, j as int);
            }
            ledger.borrow_exclusive(id);
            assert(writes@.take(j + 1) == writes@.take(j as int).push(writes@[j as int]));
            j = j + 1;
        }
        assert(writes@.take(writes@.len() as int) == writes@);
        proof {
            assert(old(ledger)@.can_share(*table));
            lemma_appended(old(ledger)@.exclusive, writes@, *table);
        }
        ledger.borrow_shared(copy_id(table));
        assert(ledger@.shared == old(ledger)@.shared + accessor.all_reads());
        ScriptSystemData {
            reads: copy_ids(reads.as_slice()),
            writes: copy_ids(writes.as_slice()),
            table: copy_id(table),
            shared_before,
            exclusive_before,
        }
    }

    /// Why the store would refuse a fetch for `accessor`, if it would.
    pub fn check(accessor: &Dependencies, world: &World, ledger: &BorrowLedger) -> (refused: Option<
        FetchError,
    >)
        ensures
            refused == first_refusal(*accessor, world_ids(*world), ledger@),
    {
        let refused = check_all(world, ledger, accessor.read_ids().as_slice(), Access::Shared);
        if refused.is_some() {
            return refused;
        }
        let refused = check_all(world, ledger, accessor.write_ids().as_slice(), Access::Exclusive);
        if refused.is_some() {
            return refused;
        }
        check_one(world, ledger, accessor.table(), Access::Shared)
    }

    /// Borrows what `accessor` declares where the store lends all of it, and
    /// otherwise says which resource it refuses first and leaves the ledger
    /// as it was.
    pub fn try_fetch(accessor: &Dependencies, world: &World, ledger: &mut BorrowLedger) -> (fetched:
        Result<Self, FetchError>)
        requires
            old(ledger)@.wf(),
        ensures
            match fetched {
                Ok(data) => {
                    &&& first_refusal(*accessor, world_ids(*world), old(ledger)@) is None
                    &&& data.fetched(*accessor, old(ledger)@, final(ledger)@)
                },
                Err(e) => {
                    &&& first_refusal(*accessor, world_ids(*world), old(ledger)@) == Some(e)
                    &&& final(ledger)@ == old(ledger)@
                },
            },
    {
        match Self::check(accessor, world, ledger) {
            Some(e) => Err(e),
            None => Ok(Self::fetch(accessor, world, ledger)),
        }
    }

    /// Gives the borrows of this run back.
    pub fn release(self, ledger: &mut BorrowLedger)
        requires
            old(ledger)@.wf(),
            self.shared_before() <= old(ledger)@.shared.len(),
            self.exclusive_before() <= old(ledger)@.exclusive.len(),
        ensures
            final(ledger)@.wf(),
            final(ledger)@ == old(ledger)@.oldest(
                self.shared_before() as int,
                self.exclusive_before() as int,
            ),
    {
        ledger.release_to(self.shared_before, self.exclusive_before);
    }

    /// The resources borrowed for reading.
    pub fn read_ids(&self) -> (ids: &Vec<ResourceId>)
        ensures
            ids@ == self.reads(),
    {
        &self.reads
    }

    /// The resources borrowed for writing.
    pub fn write_ids(&self) -> (ids: &Vec<ResourceId>)
        ensures
            ids@ == self.writes(),
    {
        &self.writes
    }
}

/// A borrow that is released right after the fetch leaves the ledger as it
/// was before the fetch.
pub proof fn lemma_release_restores(
    data: ScriptSystemData,
    accessor: Dependencies,
    before: Borrows,
    after: Borrows,
)
    requires
        data.fetched(accessor, before, after),
    ensures
        data.shared_before() <= after.shared.len(),
        data.exclusive_before() <= after.exclusive.len(),
        after.oldest(data.shared_before() as int, data.exclusive_before() as int) == before,
{
}

} // verus!
