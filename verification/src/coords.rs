//! Integer 3-vector identifying a voxel or chunk-anchor position in world
//! space. Used as a map key (equality and hashing) and for the component-wise
//! arithmetic that neighbor and face lookups need.

use vstd::prelude::*;

verus! {

/// A position in world space, in voxel units.
#[derive(Debug, Clone, Copy, PartialEq, Eq, Hash, Structural)]
pub struct Coordinates {
    pub x: i32,
    pub y: i32,
    pub z: i32,
}

impl Coordinates {
    pub fn new(x: i32, y: i32, z: i32) -> (c: Coordinates)
        ensures
            c.x == x && c.y == y && c.z == z,
    {
        Coordinates { x, y, z }
    }

    /// Component-wise sum, as used for neighbor and face offsets.
    pub fn add(self, other: Coordinates) -> (c: Coordinates)
        requires
            i32::MIN <= self.x + other.x <= i32::MAX,
            i32::MIN <= self.y + other.y <= i32::MAX,
            i32::MIN <= self.z + other.z <= i32::MAX,
        ensures
            c.x == self.x + other.x,
            c.y == self.y + other.y,
            c.z == self.z + other.z,
    {
        Coordinates { x: self.x + other.x, y: self.y + other.y, z: self.z + other.z }
    }
}

} // verus!
