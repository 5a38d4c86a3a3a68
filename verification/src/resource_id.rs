//! Resource identities and lists of them.

use shred::ResourceId;
use vstd::prelude::*;

verus! {

/// `shred::ResourceId`: the identity of one resource type in the store.
/// Opaque here; two identities are compared with their own `==`.
#[verifier::external_type_specification]
#[verifier::external_body]
pub struct ExResourceId(shred::ResourceId);

/// `ResourceId`'s derived `PartialEq::eq`.
/// The derive compares both fields, the type id and the dynamic id, so the
/// call returns `true` exactly for two equal identities.
#[verifier::external_body]
pub(crate) fn same_id(a: &ResourceId, b: &ResourceId) -> (same: bool)
    ensures
        same == (*a == *b),
{
    a == b
}

/// `ResourceId`'s derived `Clone::clone`.
/// The derive clones both fields, so the copy equals the identity it was
/// made of.
#[verifier::external_body]
pub(crate) fn copy_id(id: &ResourceId) -> (copy: ResourceId)
    ensures
        copy == *id,
{
    id.clone()
}

/// No identity of `a` occurs in `b`.
pub open spec fn disjoint(a: Seq<ResourceId>, b: Seq<ResourceId>) -> bool {
    forall|i: int, j: int| 0 <= i < a.len() && 0 <= j < b.len() ==> a[i] != b[j]
}

/// No identity occurs twice in `ids`.
pub open spec fn distinct(ids: Seq<ResourceId>) -> bool {
    forall|i: int, j: int| 0 <= i < j < ids.len() ==> ids[i] != ids[j]
}

/// Whether `id` occurs in `ids`.
pub fn contains_id(ids: &[ResourceId], id: &ResourceId) -> (found: bool)
    ensures
        found == ids@.contains(*id),
{
    let mut i: usize = 0;
    while i < ids.len()
        invariant
            i <= ids@.len(),
            forall|j: int| 0 <= j < i ==> ids@[j] != *id,
        decreases ids@.len() - i,
    {
        if same_id(&ids[i], id) {
            return true;
        }
        i = i + 1;
    }
    false
}

/// An owned copy of a list of identities, in the same order.
pub fn copy_ids(ids: &[ResourceId]) -> (copy: Vec<ResourceId>)
    ensures
        copy@ == ids@,
{
    let mut copy: Vec<ResourceId> = Vec::new();
    let mut i: usize = 0;
    while i < ids.len()
        invariant
            i <= ids@.len(),
            copy@ == ids@.subrange(0, i as int),
        decreases ids@.len() - i,
    {
        copy.push(copy_id(&ids[i]));
        assert(copy@ == ids@.subrange(0, i + 1));
        i = i + 1;
    }
    assert(ids@.subrange(0, ids@.len() as int) == ids@);
    copy
}

/// Whether no identity of `a` occurs in `b`.
pub fn are_disjoint(a: &[ResourceId], b: &[ResourceId]) -> (ok: bool)
    ensures
        ok == disjoint(a@, b@),
{
    let mut i: usize = 0;
    while i < a.len()
        invariant
            i <= a@.len(),
            forall|k: int, j: int| 0 <= k < i && 0 <= j < b@.len() ==> a@[k] != b@[j],
        decreases a@.len() - i,
    {
        if contains_id(b, &a[i]) {
            return false;
        }
        i = i + 1;
    }
    true
}

/// Whether no identity occurs twice in `ids`.
pub fn are_distinct(ids: &[ResourceId]) -> (ok: bool)
    ensures
        ok == distinct(ids@),
{
    let mut i: usize = 0;
    while i < ids.len()
        invariant
            i <= ids@.len(),
            distinct(ids@.subrange(0, i as int)),
        decreases ids@.len() - i,
    {
        let mut j: usize = 0;
        while j < i
            invariant
                j <= i < ids@.len(),
                forall|k: int| 0 <= k < j ==> ids@[k] != ids@[i as int],
            decreases i - j,
        {
            if same_id(&ids[j], &ids[i]) {
                return false;
            }
            j = j + 1;
        }
        assert(distinct(ids@.subrange(0, i + 1)));
        i = i + 1;
    }
    assert(ids@.subrange(0, ids@.len() as int) == ids@);
    true
}

} // verus!
