//! Point-versus-frustum visibility tests over six half-spaces, in fixed-point
//! integer arithmetic: a point is inside when it lies on the inner side of
//! every half-space, with a small margin to absorb edge flicker.
//!
//! The embedding application converts its camera's half-space planes to
//! fixed-point integer normals and distances; chunk bounding points are plain
//! integer positions.

use vstd::prelude::*;
use crate::coords::Coordinates;
use crate::mesh::Vec3i;

verus! {

/// One plane of the frustum: an inward-pointing normal (fixed point) and a
/// distance from the origin.
#[derive(Debug, Clone, Copy, PartialEq, Eq, Structural)]
pub struct HalfSpace {
    pub normal: Vec3i,
    pub d: i64,
}

/// Magnitude bound on point and normal components under which a dot product
/// stays far from `i64` overflow.
pub open spec fn vec3i_bounded(v: Vec3i) -> bool {
    &&& -0x40000000 <= v.x <= 0x40000000
    &&& -0x40000000 <= v.y <= 0x40000000
    &&& -0x40000000 <= v.z <= 0x40000000
}

pub open spec fn half_space_bounded(s: HalfSpace) -> bool {
    vec3i_bounded(s.normal) && -0x1000000000000000 <= s.d <= 0x1000000000000000
}

/// Dot product of two integer vectors.
pub open spec fn spec_dot(a: Vec3i, b: Vec3i) -> int {
    a.x * b.x + a.y * b.y + a.z * b.z
}

/// A point is on the inner side of a half-space when the expanded plane
/// equation is nonnegative.
pub open spec fn spec_inside_half_space(point: Vec3i, space: HalfSpace, margin: int) -> bool {
    spec_dot(space.normal, point) + (margin + space.d) >= 0
}

/// A point is in the frustum when it is inside all six half-spaces.
pub open spec fn spec_in_frustum(point: Vec3i, spaces: Seq<HalfSpace>, margin: int) -> bool {
    forall|i: int| 0 <= i < spaces.len() ==> spec_inside_half_space(point, #[trigger] spaces[i], margin)
}

/// Dot product, with bounds keeping every step inside `i64`.
fn dot(a: Vec3i, b: Vec3i) -> (r: i64)
    requires
        vec3i_bounded(a),
        vec3i_bounded(b),
    ensures
        r == spec_dot(a, b),
        -0x3000000000000000 <= r <= 0x3000000000000000,
{
    proof {
        assert(forall|p: int, q: int|
            -0x40000000 <= p <= 0x40000000 && -0x40000000 <= q <= 0x40000000
                ==> -0x1000000000000000 <= #[trigger] (p * q) <= 0x1000000000000000)
            by (nonlinear_arith);
    }
    a.x * b.x + a.y * b.y + a.z * b.z
}

/// Whether a single point lies inside the frustum defined by six
/// half-spaces, with the planes expanded by `margin` to avoid false
/// negatives from rounding at the edges.
pub fn is_in_frustum(point: Vec3i, spaces: &[HalfSpace; 6], margin: i64) -> (r: bool)
    requires
        vec3i_bounded(point),
        forall|i: int| 0 <= i < 6 ==> half_space_bounded(#[trigger] spaces@[i]),
        -0x1000000000000000 <= margin <= 0x1000000000000000,
    ensures
        r == spec_in_frustum(point, spaces@, margin as int),
{
    let mut i: usize = 0;
    while i < 6
        invariant
            i <= 6,
            vec3i_bounded(point),
            forall|k: int| 0 <= k < 6 ==> half_space_bounded(#[trigger] spaces@[k]),
            -0x1000000000000000 <= margin <= 0x1000000000000000,
            forall|k: int|
                0 <= k < i ==> spec_inside_half_space(point, #[trigger] spaces@[k], margin as int),
        decreases 6 - i,
    {
        let space = spaces[i];
        let value = dot(space.normal, point);
        if value + (margin + space.d) < 0 {
            assert(!spec_inside_half_space(point, spaces@[i as int], margin as int));
            return false;
        }
        i = i + 1;
    }
    true
}

/// Frustum test for a batch of points: one result per point, in order.
pub fn is_in_frustum_batch(points: &Vec<Vec3i>, spaces: &[HalfSpace; 6], margin: i64) -> (r: Vec<
    bool,
>)
    requires
        forall|j: int| 0 <= j < points@.len() ==> vec3i_bounded(#[trigger] points@[j]),
        forall|i: int| 0 <= i < 6 ==> half_space_bounded(#[trigger] spaces@[i]),
        -0x1000000000000000 <= margin <= 0x1000000000000000,
    ensures
        r@.len() == points@.len(),
        forall|j: int|
            0 <= j < points@.len() ==> #[trigger] r@[j] == spec_in_frustum(
                points@[j],
                spaces@,
                margin as int,
            ),
{
    let mut results: Vec<bool> = Vec::new();
    let mut j: usize = 0;
    while j < points.len()
        invariant
            j <= points@.len(),
            results@.len() == j,
            forall|k: int| 0 <= k < points@.len() ==> vec3i_bounded(#[trigger] points@[k]),
            forall|i: int| 0 <= i < 6 ==> half_space_bounded(#[trigger] spaces@[i]),
            -0x1000000000000000 <= margin <= 0x1000000000000000,
            forall|k: int|
                0 <= k < j ==> #[trigger] results@[k] == spec_in_frustum(
                    points@[k],
                    spaces@,
                    margin as int,
                ),
        decreases points@.len() - j,
    {
        let inside = is_in_frustum(points[j], spaces, margin);
        results.push(inside);
        j = j + 1;
    }
    results
}

/// Frustum test for exactly the standard set of bounding points (see
/// [`create_frustum_points`] and [`get_frustum_point_amount`]).
pub fn is_in_frustum_batch_unsized(
    points: &Vec<Vec3i>,
    spaces: &[HalfSpace; 6],
    margin: i64,
) -> (r: Vec<bool>)
    requires
        points@.len() == 6,
        forall|j: int| 0 <= j < points@.len() ==> vec3i_bounded(#[trigger] points@[j]),
        forall|i: int| 0 <= i < 6 ==> half_space_bounded(#[trigger] spaces@[i]),
        -0x1000000000000000 <= margin <= 0x1000000000000000,
    ensures
        r@.len() == 6,
        forall|j: int|
            0 <= j < 6 ==> #[trigger] r@[j] == spec_in_frustum(points@[j], spaces@, margin as int),
{
    is_in_frustum_batch(points, spaces, margin)
}

/// How many bounding points stand in for a chunk in the visibility test.
pub fn get_frustum_point_amount() -> (n: usize)
    ensures
        n == 6,
{
    6
}

/// The bounding points tested for a chunk at `pos` with edge lengths
/// `dimensions`: opposite corners of the box expanded by one voxel on each
/// side, three more corners, and the anchor itself.
pub open spec fn spec_frustum_points(pos: Coordinates, dimensions: Coordinates) -> Seq<Vec3i> {
    let px = pos.x as int;
    let py = pos.y as int;
    let pz = pos.z as int;
    let w = dimensions.x as int + 1;
    let h = dimensions.y as int + 1;
    let d = dimensions.z as int + 1;
    seq![
        Vec3i { x: (px - w) as i64, y: (py - h) as i64, z: (pz - d) as i64 },
        Vec3i { x: (px + w) as i64, y: (py + h) as i64, z: (pz + d) as i64 },
        Vec3i { x: (px + w) as i64, y: (py - h) as i64, z: (pz + d) as i64 },
        Vec3i { x: (px - w) as i64, y: (py + h) as i64, z: (pz - d) as i64 },
        Vec3i { x: (px + w) as i64, y: (py + h) as i64, z: (pz - d) as i64 },
        Vec3i { x: px as i64, y: py as i64, z: pz as i64 },
    ]
}

/// A chunk counts as visible when at least one of its six bounding points
/// lies inside all six half-spaces: a conservative approximation of
/// box-frustum intersection.
pub open spec fn spec_chunk_visible(
    pos: Coordinates,
    dimensions: Coordinates,
    spaces: Seq<HalfSpace>,
    margin: int,
) -> bool {
    exists|k: int|
        0 <= k < 6 && spec_in_frustum(
            #[trigger] spec_frustum_points(pos, dimensions)[k],
            spaces,
            margin,
        )
}

/// Whether the chunk at `pos` with edge lengths `dimensions` is visible
/// through the frustum: true when any of its bounding points passes the
/// half-space test.
pub fn is_chunk_visible(
    pos: Coordinates,
    dimensions: Coordinates,
    spaces: &[HalfSpace; 6],
    margin: i64,
) -> (r: bool)
    requires
        -0x20000000 <= pos.x <= 0x20000000,
        -0x20000000 <= pos.y <= 0x20000000,
        -0x20000000 <= pos.z <= 0x20000000,
        0 <= dimensions.x <= 0x10000000,
        0 <= dimensions.y <= 0x10000000,
        0 <= dimensions.z <= 0x10000000,
        forall|i: int| 0 <= i < 6 ==> half_space_bounded(#[trigger] spaces@[i]),
        -0x1000000000000000 <= margin <= 0x1000000000000000,
    ensures
        r == spec_chunk_visible(pos, dimensions, spaces@, margin as int),
{
    let points = create_frustum_points(pos, dimensions);
    let results = is_in_frustum_batch_unsized(&points, spaces, margin);
    let mut k: usize = 0;
    while k < 6
        invariant
            k <= 6,
            results@.len() == 6,
            forall|j: int|
                0 <= j < 6 ==> #[trigger] results@[j] == spec_in_frustum(
                    spec_frustum_points(pos, dimensions)[j],
                    spaces@,
                    margin as int,
                ),
            forall|j: int|
                0 <= j < k ==> !spec_in_frustum(
                    #[trigger] spec_frustum_points(pos, dimensions)[j],
                    spaces@,
                    margin as int,
                ),
        decreases 6 - k,
    {
        if results[k] {
            return true;
        }
        k = k + 1;
    }
    false
}

/// Build the six bounding points for a chunk position and its dimensions.
pub fn create_frustum_points(pos: Coordinates, dimensions: Coordinates) -> (r: Vec<Vec3i>)
    requires
        -0x20000000 <= pos.x <= 0x20000000,
        -0x20000000 <= pos.y <= 0x20000000,
        -0x20000000 <= pos.z <= 0x20000000,
        0 <= dimensions.x <= 0x10000000,
        0 <= dimensions.y <= 0x10000000,
        0 <= dimensions.z <= 0x10000000,
    ensures
        r@ == spec_frustum_points(pos, dimensions),
        r@.len() == 6,
        forall|j: int| 0 <= j < 6 ==> vec3i_bounded(#[trigger] r@[j]),
{
    let px = pos.x as i64;
    let py = pos.y as i64;
    let pz = pos.z as i64;
    let w = dimensions.x as i64 + 1;
    let h = dimensions.y as i64 + 1;
    let d = dimensions.z as i64 + 1;
    let mut points: Vec<Vec3i> = Vec::new();
    points.push(Vec3i { x: px - w, y: py - h, z: pz - d });
    points.push(Vec3i { x: px + w, y: py + h, z: pz + d });
    points.push(Vec3i { x: px + w, y: py - h, z: pz + d });
    points.push(Vec3i { x: px - w, y: py + h, z: pz - d });
    points.push(Vec3i { x: px + w, y: py + h, z: pz - d });
    points.push(Vec3i { x: px, y: py, z: pz });
    proof {
        assert(points@ =~= spec_frustum_points(pos, dimensions));
    }
    points
}

} // verus!
