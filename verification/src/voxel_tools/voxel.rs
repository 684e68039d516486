//! A single density sample of the world.

use vstd::prelude::*;

verus! {

/// The density of a voxel, from 0 (empty) to 255 (fully solid).
pub struct Density(pub u8);

/// One sample of the density field. A voxel is solid when its density is
/// above zero.
#[derive(Copy, Clone, Debug)]
pub struct Voxel {
    density: u8,
}

impl Voxel {
    /// The density held by this voxel.
    pub closed spec fn spec_density(&self) -> u8 {
        self.density
    }

    /// Whether the voxel counts as solid: its density is above zero.
    pub open spec fn solid(&self) -> bool {
        self.spec_density() > 0
    }

    pub fn new(density: Density) -> (v: Self)
        ensures
            v.spec_density() == density.0,
    {
        Self { density: density.0 }
    }

    pub fn new_empty() -> (v: Self)
        ensures
            v.spec_density() == 0,
            !v.solid(),
    {
        Self::new(Density(0u8))
    }

    pub fn new_solid() -> (v: Self)
        ensures
            v.spec_density() == 255,
            v.solid(),
    {
        Self::new(Density(255u8))
    }

    pub fn is_solid(&self) -> (b: bool)
        ensures
            b == self.solid(),
    {
        self.density > 0u8
    }

    #[verifier::when_used_as_spec(spec_density)]
    pub fn density(&self) -> (d: u8)
        ensures
            d == self.spec_density(),
    {
        self.density
    }

    /// Overwrites the density; nothing else about the voxel exists to change.
    pub fn set_density(&mut self, density: Density)
        ensures
            final(self).spec_density() == density.0,
    {
        self.density = density.0;
    }
}

/// Two voxels with the same density are the same voxel.
pub(crate) proof fn lemma_voxel_is_its_density(a: Voxel, b: Voxel)
    requires
        a.spec_density() == b.spec_density(),
    ensures
        a == b,
{
}

} // verus!
