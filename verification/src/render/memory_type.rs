//! Choosing the kind of device memory a buffer or image is allocated from.
use vstd::prelude::*;

verus! {

/// Whether memory type `id` may hold the resource, by its requirement mask,
/// and has the property asked for.
pub open spec fn fits(type_mask: u64, has_property: Seq<bool>, id: int) -> bool {
    &&& 0 <= id < has_property.len()
    &&& type_mask & (1u64 << (id as u64)) != 0
    &&& has_property[id]
}

/// The first memory type that may hold the resource, per its requirement
/// mask, and has the property asked for (visible to the host for staging
/// buffers, local to the device for images). `has_property[id]` says whether
/// memory type `id` has that property.
pub fn find_memory_type(type_mask: u64, has_property: &Vec<bool>) -> (r: Option<usize>)
    requires
        has_property@.len() <= 64,
    ensures
        match r {
            Some(id) => fits(type_mask, has_property@, id as int) && forall|j: int|
                0 <= j < id ==> !fits(type_mask, has_property@, j),
            None => forall|j: int| 0 <= j < has_property@.len() ==> !fits(type_mask, has_property@, j),
        },
{
    let mut id: usize = 0;
    while id < has_property.len()
        invariant
            has_property@.len() <= 64,
            id <= has_property@.len(),
            forall|j: int| 0 <= j < id ==> !fits(type_mask, has_property@, j),
        decreases has_property@.len() - id,
    {
        let bit: u64 = 1u64 << (id as u64);
        if type_mask & bit != 0 && has_property[id] {
            return Some(id);
        }
        id = id + 1;
    }
    None
}

} // verus!
