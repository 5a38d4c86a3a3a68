//! Resource names and the identities they stand for.

use crate::resource_id::copy_id;
use shred::ResourceId;
use vstd::prelude::*;

verus! {

/// The map that the first `n` entries of two lists make, a later entry
/// replacing an earlier one of the same name.
pub open spec fn entries(names: Seq<String>, ids: Seq<ResourceId>, n: nat) -> Map<
    Seq<char>,
    ResourceId,
>
    decreases n,
{
    if n == 0 {
        Map::empty()
    } else {
        entries(names, ids, (n - 1) as nat).insert(names[n - 1]@, ids[n - 1])
    }
}

/// No name occurs twice.
pub open spec fn distinct_names(names: Seq<String>) -> bool {
    forall|i: int, j: int| 0 <= i < j < names.len() ==> names[i]@ != names[j]@
}

/// The first `n` entries do not depend on what follows them.
proof fn lemma_entries_prefix(
    names: Seq<String>,
    ids: Seq<ResourceId>,
    names2: Seq<String>,
    ids2: Seq<ResourceId>,
    n: nat,
)
    requires
        n <= names.len(),
        n <= ids.len(),
        n <= names2.len(),
        n <= ids2.len(),
        forall|i: int| 0 <= i < n ==> names[i] == names2[i] && ids[i] == ids2[i],
    ensures
        entries(names, ids, n) == entries(names2, ids2, n),
    decreases n,
{
    if n > 0 {
        lemma_entries_prefix(names, ids, names2, ids2, (n - 1) as nat);
    }
}

/// The names of the first `n` entries are the keys, and with distinct names
/// each entry is found under its name.
proof fn lemma_entries_keys(names: Seq<String>, ids: Seq<ResourceId>, n: nat)
    requires
        n <= names.len(),
        n <= ids.len(),
        distinct_names(names),
    ensures
        forall|key: Seq<char>|
            entries(names, ids, n).contains_key(key) <==> exists|i: int|
                0 <= i < n && names[i]@ == key,
        forall|i: int|
            0 <= i < n ==> entries(names, ids, n).contains_key(names[i]@) && entries(
                names,
                ids,
                n,
            )[names[i]@] == ids[i],
    decreases n,
{
    if n > 0 {
        lemma_entries_keys(names, ids, (n - 1) as nat);
        let before = entries(names, ids, (n - 1) as nat);
        assert forall|key: Seq<char>| entries(names, ids, n).contains_key(key) implies exists|
            i: int,
        |
            0 <= i < n && names[i]@ == key by {
            if key == names[n - 1]@ {
                assert(names[n - 1]@ == key);
            } else {
                assert(before.contains_key(key));
                let i = choose|i: int| 0 <= i < n - 1 && names[i]@ == key;
                assert(0 <= i < n && names[i]@ == key);
            }
        }
        assert forall|key: Seq<char>| (exists|i: int| 0 <= i < n && names[i]@ == key) implies entries(
            names,
            ids,
            n,
        ).contains_key(key) by {
            let i = choose|i: int| 0 <= i < n && names[i]@ == key;
            if i < n - 1 {
                assert(0 <= i < n - 1 && names[i]@ == key);
                assert(before.contains_key(key));
            }
        }
    }
}

/// Replacing the identity of one entry replaces it in the map.
proof fn lemma_entries_update(
    names: Seq<String>,
    ids: Seq<ResourceId>,
    k: int,
    id: ResourceId,
    n: nat,
)
    requires
        n <= names.len(),
        names.len() == ids.len(),
        0 <= k < names.len(),
        distinct_names(names),
    ensures
        k < n ==> entries(names, ids.update(k, id), n) == entries(names, ids, n).insert(
            names[k]@,
            id,
        ),
        k >= n ==> entries(names, ids.update(k, id), n) == entries(names, ids, n),
    decreases n,
{
    if n > 0 {
        lemma_entries_update(names, ids, k, id, (n - 1) as nat);
        let before = entries(names, ids, (n - 1) as nat);
        if k == n - 1 {
            assert(entries(names, ids.update(k, id), n) =~= entries(names, ids, n).insert(
                names[k]@,
                id,
            ));
        } else if k < n - 1 {
            assert(names[k]@ != names[n - 1]@);
            assert(entries(names, ids.update(k, id), n) =~= entries(names, ids, n).insert(
                names[k]@,
                id,
            ));
        }
    }
}

/// `ids` are the identities registered under `names`, one for one.
pub open spec fn named(
    registered: Map<Seq<char>, ResourceId>,
    names: Seq<String>,
    ids: Seq<ResourceId>,
) -> bool {
    &&& ids.len() == names.len()
    &&& forall|i: int|
        0 <= i < names.len() ==> registered.contains_key(#[trigger] names[i]@) && ids[i]
            == registered[names[i]@]
}

/// The name at place `k` is the first of `names` that is not registered.
pub open spec fn first_unknown(
    registered: Map<Seq<char>, ResourceId>,
    names: Seq<String>,
    k: int,
) -> bool {
    &&& 0 <= k < names.len()
    &&& !registered.contains_key(names[k]@)
    &&& forall|i: int| 0 <= i < k ==> registered.contains_key(#[trigger] names[i]@)
}

/// Maps resource names to resource identities.
///
/// The entries are kept in two lists of equal length. Nothing can be proved
/// of a hash map with `String` keys: vstd states the behaviour of hash maps
/// only for keys whose hashing it models, and those are the integers.
pub struct ResourceTable {
    names: Vec<String>,
    ids: Vec<ResourceId>,
}

impl ResourceTable {
    /// Every name has one identity, and no name occurs twice.
    pub closed spec fn wf(self) -> bool {
        &&& self.names@.len() == self.ids@.len()
        &&& distinct_names(self.names@)
    }

    /// The identity registered under each name.
    pub closed spec fn view(self) -> Map<Seq<char>, ResourceId> {
        entries(self.names@, self.ids@, self.names@.len())
    }

    /// A table without names.
    pub fn new() -> (table: ResourceTable)
        ensures
            table.wf(),
            table@ == Map::<Seq<char>, ResourceId>::empty(),
    {
        ResourceTable { names: Vec::new(), ids: Vec::new() }
    }

    /// Where `name` stands in the table, if it does.
    fn position(&self, name: &String) -> (found: Option<usize>)
        requires
            self.wf(),
        ensures
            match found {
                Some(k) => k < self.names@.len() && self.names@[k as int]@ == name@,
                None => forall|i: int| 0 <= i < self.names@.len() ==> self.names@[i]@ != name@,
            },
    {
        let mut i: usize = 0;
        while i < self.names.len()
            invariant
                i <= self.names@.len(),
                forall|j: int| 0 <= j < i ==> self.names@[j]@ != name@,
            decreases self.names@.len() - i,
        {
            if self.names[i] == *name {
                return Some(i);
            }
            i = i + 1;
        }
        None
    }

    /// Registers `id` under `name`. An identity that was registered under
    /// the same name before is replaced.
    pub fn register(&mut self, name: &str, id: ResourceId)
        requires
            old(self).wf(),
        ensures
            final(self).wf(),
            final(self)@ == old(self)@.insert(name@, id),
    {
        let owned = name.to_owned();
        match self.position(&owned) {
            Some(k) => {
                proof {
                    lemma_entries_update(
                        self.names@,
                        self.ids@,
                        k as int,
                        id,
                        self.names@.len(),
                    );
                }
                self.ids.set(k, id);
            },
            None => {
                proof {
                    lemma_entries_prefix(
                        self.names@,
                        self.ids@,
                        self.names@.push(owned),
                        self.ids@.push(id),
                        self.names@.len(),
                    );
                }
                self.names.push(owned);
                self.ids.push(id);
            },
        }
    }

    /// The identity registered under `name`, if there is one.
    pub fn find(&self, name: &str) -> (found: Option<ResourceId>)
        requires
            self.wf(),
        ensures
            found is Some <==> self@.contains_key(name@),
            found matches Some(id) ==> id == self@[name@],
    {
        let owned = name.to_owned();
        proof {
            lemma_entries_keys(self.names@, self.ids@, self.names@.len());
        }
        match self.position(&owned) {
            Some(k) => Some(copy_id(&self.ids[k])),
            None => None,
        }
    }

    /// The identity registered under `name`.
    pub fn get(&self, name: &str) -> (id: ResourceId)
        requires
            self.wf(),
            self@.contains_key(name@),
        ensures
            id == self@[name@],
    {
        self.find(name).unwrap()
    }

    /// The identities that `names` stand for, in the same order. Where a name
    /// is not registered, the place of the first such name.
    pub fn resolve(&self, names: &[String]) -> (resolved: Result<Vec<ResourceId>, usize>)
        requires
            self.wf(),
        ensures
            match resolved {
                Ok(ids) => named(self@, names@, ids@),
                Err(k) => first_unknown(self@, names@, k as int),
            },
    {
        let mut ids: Vec<ResourceId> = Vec::new();
        let mut i: usize = 0;
        while i < names.len()
            invariant
                i <= names@.len(),
                self.wf(),
                ids@.len() == i,
                forall|j: int|
                    0 <= j < i ==> self@.contains_key(#[trigger] names@[j]@) && ids@[j]
                        == self@[names@[j]@],
            decreases names@.len() - i,
        {
            match self.find(names[i].as_str()) {
                Some(id) => {
                    ids.push(id);
                },
                None => {
                    return Err(i);
                },
            }
            i = i + 1;
        }
        Ok(ids)
    }
}

} // verus!
