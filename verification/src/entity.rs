use vstd::prelude::*;

verus! {

/// A generational entity ID.
///
/// When an entity is destroyed, its slot is freed but the index is reused
/// with an incremented generation. This prevents use-after-free bugs where
/// a stale entity ID would incorrectly reference a newly created entity.
#[derive(Clone, Copy, PartialEq, Eq, Structural, Hash, Debug)]
pub struct Entity {
    index: u32,
    generation: u32,
}

impl Entity {
    /// The slot index of this handle.
    pub closed spec fn spec_index(self) -> u32 {
        self.index
    }

    /// The generation of this handle.
    pub closed spec fn spec_generation(self) -> u32 {
        self.generation
    }

    pub fn new(index: u32, generation: u32) -> (e: Self)
        ensures
            e.spec_index() == index,
            e.spec_generation() == generation,
    {
        Entity { index, generation }
    }

    pub fn index(&self) -> (i: u32)
        ensures
            i == self.spec_index(),
    {
        self.index
    }

    pub fn generation(&self) -> (g: u32)
        ensures
            g == self.spec_generation(),
    {
        self.generation
    }
}

/// Two handles are equal exactly when index and generation agree.
pub proof fn entity_equality(a: Entity, b: Entity)
    ensures
        (a == b) <==> (a.spec_index() == b.spec_index() && a.spec_generation() == b.spec_generation()),
{
}

} // verus!
