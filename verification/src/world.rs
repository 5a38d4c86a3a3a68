//! The resource store, as far as the script systems look into it.

use shred::ResourceId;
use shred::World;
use vstd::prelude::*;

verus! {

/// `shred::World`: the store that holds one value for each resource identity
/// that was inserted. Opaque here.
#[verifier::external_type_specification]
#[verifier::external_body]
pub struct ExWorld(shred::World);

/// The identities that have a value in the store.
pub uninterp spec fn world_ids(world: World) -> Set<ResourceId>;

/// `World::has_value_raw` looks the identity up among the store's keys and
/// says whether it is there.
pub assume_specification[ World::has_value_raw ](world: &World, id: ResourceId) -> (present: bool)
    ensures
        present == world_ids(*world).contains(id),
;

} // verus!
