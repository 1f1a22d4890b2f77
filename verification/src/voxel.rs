//! The atomic volumetric cell: a solid flag, a color and a per-voxel scale.
//!
//! Colors and scales are kept as fixed-point integers (see [`crate::fixed`]),
//! so that the generator's color mapping and the mesher's vertex arithmetic
//! are exact, machine-checkable functions of their inputs.

use vstd::prelude::*;
use crate::fixed::FP_ONE;

verus! {

/// An RGBA color with fixed-point channels; `FP_ONE` is full intensity.
/// Channels may exceed `FP_ONE`: the generator adds a height tint and a heat
/// tint channel-wise, as the final shading pipeline expects.
#[derive(Debug, Clone, Copy, PartialEq, Eq, Structural)]
pub struct VoxelColor {
    pub r: i64,
    pub g: i64,
    pub b: i64,
    pub a: i64,
}

impl VoxelColor {
    /// Fully transparent black, the color of empty space.
    pub fn transparent() -> (c: VoxelColor)
        ensures
            c == (VoxelColor { r: 0, g: 0, b: 0, a: 0 }),
    {
        VoxelColor { r: 0, g: 0, b: 0, a: 0 }
    }

    /// Channel-wise sum, as used to combine the height and heat tints.
    pub fn add(self, other: VoxelColor) -> (c: VoxelColor)
        requires
            i64::MIN <= self.r + other.r <= i64::MAX,
            i64::MIN <= self.g + other.g <= i64::MAX,
            i64::MIN <= self.b + other.b <= i64::MAX,
            i64::MIN <= self.a + other.a <= i64::MAX,
        ensures
            c.r == self.r + other.r,
            c.g == self.g + other.g,
            c.b == self.b + other.b,
            c.a == self.a + other.a,
    {
        VoxelColor {
            r: self.r + other.r,
            g: self.g + other.g,
            b: self.b + other.b,
            a: self.a + other.a,
        }
    }
}

/// The smallest addressable volumetric cell.
#[derive(Debug, Clone, Copy, PartialEq, Eq, Structural)]
pub struct Voxel {
    pub color: VoxelColor,
    pub is_solid: bool,
    /// Per-voxel scale in fixed point; reserved for future use and currently
    /// always `FP_ONE`. Invariant: strictly positive.
    pub size: i64,
}

impl Voxel {
    /// A voxel is well formed when its scale is strictly positive.
    pub open spec fn wf(self) -> bool {
        self.size > 0
    }

    pub fn new(color: VoxelColor, is_solid: bool, size: i64) -> (v: Voxel)
        requires
            size > 0,
        ensures
            v == (Voxel { color, is_solid, size }),
            v.wf(),
    {
        Voxel { color, is_solid, size }
    }

    pub fn new_solid(color: VoxelColor, size: i64) -> (v: Voxel)
        requires
            size > 0,
        ensures
            v == (Voxel { color, is_solid: true, size }),
            v.wf(),
    {
        Voxel { color, is_solid: true, size }
    }

    #[inline]
    pub fn is_solid(&self) -> (b: bool)
        ensures
            b == self.is_solid,
    {
        self.is_solid
    }

    /// The default voxel: non-solid, transparent, unit scale.
    pub open spec fn spec_default() -> Voxel {
        Voxel { color: VoxelColor { r: 0, g: 0, b: 0, a: 0 }, is_solid: false, size: FP_ONE as i64 }
    }
}

impl Default for Voxel {
    fn default() -> (v: Voxel)
        ensures
            v == Voxel::spec_default(),
            v.wf(),
    {
        Voxel {
            color: VoxelColor { r: 0, g: 0, b: 0, a: 0 },
            is_solid: false,
            size: FP_ONE as i64,
        }
    }
}

} // verus!
