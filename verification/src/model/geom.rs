//! Identities of meshes.
use vstd::prelude::*;

verus! {

/// Hands out mesh identities, counting up from zero.
pub struct MeshAlloc {
    counter: u64,
}

impl MeshAlloc {
    /// The next identity to hand out.
    pub closed spec fn next_id(&self) -> u64 {
        self.counter
    }

    /// An allocator whose first identity is zero.
    pub fn new() -> (r: Self)
        ensures
            r.next_id() == 0,
    {
        Self { counter: 0 }
    }

    /// The next identity to hand out, read.
    pub fn peek_id(&self) -> (r: u64)
        ensures
            r == self.next_id(),
    {
        self.counter
    }

    /// Hands out the next identity.
    pub fn alloc_id(&mut self) -> (r: u64)
        requires
            old(self).next_id() < u64::MAX,
        ensures
            r == old(self).next_id(),
            final(self).next_id() == old(self).next_id() + 1,
    {
        let c = self.counter;
        self.counter += 1;
        c
    }
}

} // verus!
