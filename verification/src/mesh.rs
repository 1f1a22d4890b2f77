//! Occlusion-aware mesh building: turns a voxel buffer into vertex, color and
//! index buffers for a renderable mesh of all solid voxels, with optional
//! face culling, level-of-detail downsampling, per-triangle flat normals and
//! an axis-aligned bounding volume.
//!
//! All geometry is integer: cube corners land on integer grid points scaled
//! by the level of detail, and flat normals are unnormalized cross products
//! (axis-aligned for cubes), so the whole build is an exact function of the
//! voxel buffer, the level of detail and the settings — meshing the same
//! buffer twice yields the same mesh, by construction.

use vstd::prelude::*;
use vstd::arithmetic::power2::{pow2, lemma_pow2_pos};
use vstd::bits::lemma_u32_shr_is_div;
use crate::chunk::{ChunkDimensions, VoxelFace, lemma_index_in_volume};
use crate::fixed::FP_ONE;
use crate::voxel::{Voxel, VoxelColor};

verus! {

/// Mesher configuration.
#[derive(Debug, Clone, Copy, PartialEq, Eq, Structural)]
pub struct MeshSettings {
    /// When set, faces fully hidden by an adjacent solid voxel are dropped.
    pub occlusion_culling: bool,
}

/// An integer 3-vector: a vertex position or an (unnormalized) normal.
#[derive(Debug, Clone, Copy, PartialEq, Eq, Structural)]
pub struct Vec3i {
    pub x: i64,
    pub y: i64,
    pub z: i64,
}

/// An axis-aligned bounding box over mesh vertices.
#[derive(Debug, Clone, Copy, PartialEq, Eq, Structural)]
pub struct Aabb {
    pub min: Vec3i,
    pub max: Vec3i,
}

/// The buffers of a built mesh.
#[derive(Debug, Clone)]
pub struct MeshData {
    pub vertices: Vec<Vec3i>,
    pub colors: Vec<VoxelColor>,
    pub indices: Vec<u32>,
    /// One unnormalized flat normal per triangle.
    pub normals: Vec<Vec3i>,
    /// Bounding volume of all vertices; `None` for an empty mesh.
    pub aabb: Option<Aabb>,
}

/// The vertices emitted for one voxel cube: position and size of one voxel.
pub struct VoxelMeshData {
    pub vertices: Vec<Vec3i>,
    pub colors: Vec<VoxelColor>,
}

/// Effective edge length at a level of detail: the base length halved `lod`
/// times.
pub open spec fn spec_effective_dim(base: u32, lod: u32) -> int {
    base as int / pow2(lod as nat) as int
}

/// World-space edge length of one cell: the voxel's own scale times
/// `1 + lod^2`, in fixed point rounded down.
pub open spec fn spec_voxel_scale(size: int, lod: int) -> int {
    size * (1 + lod * lod) / (FP_ONE as int)
}

/// The eight corners of a cube with low corner `(x0, y0, z0)` and edge `s`,
/// in the fixed order the index templates refer to.
pub open spec fn spec_cube_corners(x0: int, y0: int, z0: int, s: int) -> Seq<Vec3i> {
    seq![
        Vec3i { x: x0 as i64, y: y0 as i64, z: z0 as i64 },
        Vec3i { x: (x0 + s) as i64, y: y0 as i64, z: z0 as i64 },
        Vec3i { x: (x0 + s) as i64, y: (y0 + s) as i64, z: z0 as i64 },
        Vec3i { x: x0 as i64, y: (y0 + s) as i64, z: z0 as i64 },
        Vec3i { x: x0 as i64, y: y0 as i64, z: (z0 + s) as i64 },
        Vec3i { x: (x0 + s) as i64, y: y0 as i64, z: (z0 + s) as i64 },
        Vec3i { x: (x0 + s) as i64, y: (y0 + s) as i64, z: (z0 + s) as i64 },
        Vec3i { x: x0 as i64, y: (y0 + s) as i64, z: (z0 + s) as i64 },
    ]
}

/// Eight copies of one color, one per cube corner.
pub open spec fn spec_cube_colors(color: VoxelColor) -> Seq<VoxelColor> {
    Seq::new(8, |k: int| color)
}

/// The face walked at position `f` of the per-voxel face loop.
pub open spec fn spec_face_of(f: int) -> VoxelFace {
    if f == 0 {
        VoxelFace::Back
    } else if f == 1 {
        VoxelFace::Right
    } else if f == 2 {
        VoxelFace::Front
    } else if f == 3 {
        VoxelFace::Left
    } else if f == 4 {
        VoxelFace::Up
    } else {
        VoxelFace::Down
    }
}

/// The two triangles (six corner indices) that render face `f` of a cube.
pub open spec fn spec_face_template(f: int) -> Seq<u32> {
    if f == 0 {
        seq![0u32, 2u32, 1u32, 0u32, 3u32, 2u32]
    } else if f == 1 {
        seq![1u32, 6u32, 5u32, 1u32, 2u32, 6u32]
    } else if f == 2 {
        seq![5u32, 7u32, 4u32, 5u32, 6u32, 7u32]
    } else if f == 3 {
        seq![4u32, 3u32, 0u32, 4u32, 7u32, 3u32]
    } else if f == 4 {
        seq![3u32, 6u32, 2u32, 3u32, 7u32, 6u32]
    } else {
        seq![4u32, 1u32, 5u32, 4u32, 0u32, 1u32]
    }
}

/// The in-chunk cell that would be visible through `face` of cell
/// `(x, y, z)`.
pub open spec fn spec_face_neighbor(face: VoxelFace, x: int, y: int, z: int) -> (int, int, int) {
    match face {
        VoxelFace::Front => (x, y, z + 1),
        VoxelFace::Back => (x, y, z - 1),
        VoxelFace::Left => (x - 1, y, z),
        VoxelFace::Right => (x + 1, y, z),
        VoxelFace::Up => (x, y + 1, z),
        VoxelFace::Down => (x, y - 1, z),
    }
}

/// Whether the neighbor across `face` exists in this buffer and is solid.
/// A neighbor beyond the buffer bounds counts as absent, so boundary faces
/// stay visible.
pub open spec fn spec_neighbor_solid(
    voxels: Seq<Voxel>,
    dims: ChunkDimensions,
    x: int,
    y: int,
    z: int,
    face: VoxelFace,
) -> bool {
    let (nx, ny, nz) = spec_face_neighbor(face, x, y, z);
    dims.in_bounds(nx, ny, nz) && voxels[dims.spec_index(nx, ny, nz)].is_solid
}

/// A face survives culling when culling is off or its neighbor is not solid.
pub open spec fn spec_face_visible(
    settings: MeshSettings,
    voxels: Seq<Voxel>,
    dims: ChunkDimensions,
    x: int,
    y: int,
    z: int,
    f: int,
) -> bool {
    !settings.occlusion_culling || !spec_neighbor_solid(voxels, dims, x, y, z, spec_face_of(f))
}

/// Corner indices emitted for the first `f` faces of one solid cell, each
/// template entry offset by the cell's first vertex index.
pub open spec fn spec_cell_indices_upto(
    settings: MeshSettings,
    voxels: Seq<Voxel>,
    dims: ChunkDimensions,
    x: int,
    y: int,
    z: int,
    base: int,
    f: nat,
) -> Seq<u32>
    decreases f,
{
    if f == 0 {
        Seq::empty()
    } else {
        spec_cell_indices_upto(settings, voxels, dims, x, y, z, base, (f - 1) as nat) + if
        spec_face_visible(settings, voxels, dims, x, y, z, f - 1) {
            Seq::new(6, |k: int| (base + spec_face_template(f - 1)[k]) as u32)
        } else {
            Seq::empty()
        }
    }
}

/// All corner indices of one solid cell.
pub open spec fn spec_cell_indices(
    settings: MeshSettings,
    voxels: Seq<Voxel>,
    dims: ChunkDimensions,
    x: int,
    y: int,
    z: int,
    base: int,
) -> Seq<u32> {
    spec_cell_indices_upto(settings, voxels, dims, x, y, z, base, 6)
}

/// Cell coordinates of linear cell index `i` over the effective grid.
pub open spec fn spec_cell_x(i: int, ew: int) -> int {
    i % ew
}

pub open spec fn spec_cell_y(i: int, ew: int, eh: int) -> int {
    (i / ew) % eh
}

pub open spec fn spec_cell_z(i: int, ew: int, eh: int) -> int {
    i / (ew * eh)
}

/// Whether the voxel sampled for cell `i` is solid. Cells are sampled at
/// their own coordinates against the full-resolution strides, so higher
/// levels of detail read the low corner of the buffer.
pub open spec fn spec_cell_solid(
    voxels: Seq<Voxel>,
    dims: ChunkDimensions,
    ew: int,
    eh: int,
    i: int,
) -> bool {
    voxels[dims.spec_index(
        spec_cell_x(i, ew),
        spec_cell_y(i, ew, eh),
        spec_cell_z(i, ew, eh),
    )].is_solid
}

/// The voxel sampled for cell `i`.
pub open spec fn spec_cell_voxel(
    voxels: Seq<Voxel>,
    dims: ChunkDimensions,
    ew: int,
    eh: int,
    i: int,
) -> Voxel {
    voxels[dims.spec_index(spec_cell_x(i, ew), spec_cell_y(i, ew, eh), spec_cell_z(i, ew, eh))]
}

/// Number of solid cells among the first `n`.
pub open spec fn spec_solid_count_upto(
    voxels: Seq<Voxel>,
    dims: ChunkDimensions,
    ew: int,
    eh: int,
    n: nat,
) -> int
    decreases n,
{
    if n == 0 {
        0
    } else {
        spec_solid_count_upto(voxels, dims, ew, eh, (n - 1) as nat) + if spec_cell_solid(
            voxels,
            dims,
            ew,
            eh,
            n - 1,
        ) {
            1int
        } else {
            0int
        }
    }
}

pub proof fn lemma_solid_count_bound(
    voxels: Seq<Voxel>,
    dims: ChunkDimensions,
    ew: int,
    eh: int,
    n: nat,
)
    ensures
        0 <= spec_solid_count_upto(voxels, dims, ew, eh, n) <= n,
    decreases n,
{
    if n > 0 {
        lemma_solid_count_bound(voxels, dims, ew, eh, (n - 1) as nat);
    }
}

/// Vertices of the first `n` cells.
pub open spec fn spec_mesh_vertices_upto(
    voxels: Seq<Voxel>,
    dims: ChunkDimensions,
    lod: u32,
    ew: int,
    eh: int,
    n: nat,
) -> Seq<Vec3i>
    decreases n,
{
    if n == 0 {
        Seq::empty()
    } else {
        spec_mesh_vertices_upto(voxels, dims, lod, ew, eh, (n - 1) as nat) + if spec_cell_solid(
            voxels,
            dims,
            ew,
            eh,
            n - 1,
        ) {
            let x = spec_cell_x(n - 1, ew);
            let y = spec_cell_y(n - 1, ew, eh);
            let z = spec_cell_z(n - 1, ew, eh);
            let s = spec_voxel_scale(
                spec_cell_voxel(voxels, dims, ew, eh, n - 1).size as int,
                lod as int,
            );
            spec_cube_corners(x * s, y * s, z * s, s)
        } else {
            Seq::empty()
        }
    }
}

/// Colors of the first `n` cells.
pub open spec fn spec_mesh_colors_upto(
    voxels: Seq<Voxel>,
    dims: ChunkDimensions,
    ew: int,
    eh: int,
    n: nat,
) -> Seq<VoxelColor>
    decreases n,
{
    if n == 0 {
        Seq::empty()
    } else {
        spec_mesh_colors_upto(voxels, dims, ew, eh, (n - 1) as nat) + if spec_cell_solid(
            voxels,
            dims,
            ew,
            eh,
            n - 1,
        ) {
            spec_cube_colors(spec_cell_voxel(voxels, dims, ew, eh, n - 1).color)
        } else {
            Seq::empty()
        }
    }
}

/// Corner indices of the first `n` cells; each solid cell's indices start at
/// eight times the number of solid cells before it.
pub open spec fn spec_mesh_indices_upto(
    settings: MeshSettings,
    voxels: Seq<Voxel>,
    dims: ChunkDimensions,
    ew: int,
    eh: int,
    n: nat,
) -> Seq<u32>
    decreases n,
{
    if n == 0 {
        Seq::empty()
    } else {
        spec_mesh_indices_upto(settings, voxels, dims, ew, eh, (n - 1) as nat) + if spec_cell_solid(
            voxels,
            dims,
            ew,
            eh,
            n - 1,
        ) {
            spec_cell_indices(
                settings,
                voxels,
                dims,
                spec_cell_x(n - 1, ew),
                spec_cell_y(n - 1, ew, eh),
                spec_cell_z(n - 1, ew, eh),
                8 * spec_solid_count_upto(voxels, dims, ew, eh, (n - 1) as nat),
            )
        } else {
            Seq::empty()
        }
    }
}

/// Difference of two vertex positions.
pub open spec fn spec_vec3i_sub(a: Vec3i, b: Vec3i) -> Vec3i {
    Vec3i { x: (a.x - b.x) as i64, y: (a.y - b.y) as i64, z: (a.z - b.z) as i64 }
}

/// Cross product; for the axis-aligned cube faces this is an axis-aligned
/// (unnormalized) normal.
pub open spec fn spec_cross(a: Vec3i, b: Vec3i) -> Vec3i {
    Vec3i {
        x: (a.y * b.z - a.z * b.y) as i64,
        y: (a.z * b.x - a.x * b.z) as i64,
        z: (a.x * b.y - a.y * b.x) as i64,
    }
}

/// Flat normal of triangle `t` of an index buffer.
pub open spec fn spec_triangle_normal(vertices: Seq<Vec3i>, indices: Seq<u32>, t: int) -> Vec3i {
    let v0 = vertices[indices[3 * t] as int];
    let v1 = vertices[indices[3 * t + 1] as int];
    let v2 = vertices[indices[3 * t + 2] as int];
    spec_cross(spec_vec3i_sub(v1, v0), spec_vec3i_sub(v2, v0))
}

/// One flat normal per triangle.
pub open spec fn spec_flat_normals(vertices: Seq<Vec3i>, indices: Seq<u32>) -> Seq<Vec3i> {
    Seq::new((indices.len() / 3) as nat, |t: int| spec_triangle_normal(vertices, indices, t))
}

pub open spec fn spec_min_i64(a: i64, b: i64) -> i64 {
    if a < b {
        a
    } else {
        b
    }
}

pub open spec fn spec_max_i64(a: i64, b: i64) -> i64 {
    if a > b {
        a
    } else {
        b
    }
}

/// Bounding box of the first `n` vertices; `None` when there are none.
pub open spec fn spec_aabb_upto(vertices: Seq<Vec3i>, n: nat) -> Option<Aabb>
    decreases n,
{
    if n == 0 {
        None
    } else {
        let v = vertices[n - 1];
        match spec_aabb_upto(vertices, (n - 1) as nat) {
            None => Some(Aabb { min: v, max: v }),
            Some(b) => Some(
                Aabb {
                    min: Vec3i {
                        x: spec_min_i64(b.min.x, v.x),
                        y: spec_min_i64(b.min.y, v.y),
                        z: spec_min_i64(b.min.z, v.z),
                    },
                    max: Vec3i {
                        x: spec_max_i64(b.max.x, v.x),
                        y: spec_max_i64(b.max.y, v.y),
                        z: spec_max_i64(b.max.z, v.z),
                    },
                },
            ),
        }
    }
}

/// Conditions under which every intermediate of the mesher fits its type:
/// modest dimensions and level of detail, and voxel scales within a few
/// world units.
pub open spec fn mesh_input_valid(voxels: Seq<Voxel>, dims: ChunkDimensions, lod: u32) -> bool {
    &&& dims.wf()
    &&& voxels.len() == dims.spec_volume()
    &&& dims.width <= 4096
    &&& dims.height <= 4096
    &&& dims.depth <= 4096
    &&& dims.spec_volume() <= 0x10000000
    &&& lod <= 16
    &&& forall|i: int| 0 <= i < voxels.len() ==> 0 < (#[trigger] voxels[i]).size <= 16 * FP_ONE
}

/// Vertices of the whole effective grid.
pub open spec fn spec_mesh_vertices(voxels: Seq<Voxel>, dims: ChunkDimensions, lod: u32) -> Seq<
    Vec3i,
> {
    let ew = spec_effective_dim(dims.width, lod);
    let eh = spec_effective_dim(dims.height, lod);
    let ed = spec_effective_dim(dims.depth, lod);
    spec_mesh_vertices_upto(voxels, dims, lod, ew, eh, (ew * eh * ed) as nat)
}

/// Colors of the whole effective grid.
pub open spec fn spec_mesh_colors(voxels: Seq<Voxel>, dims: ChunkDimensions, lod: u32) -> Seq<
    VoxelColor,
> {
    let ew = spec_effective_dim(dims.width, lod);
    let eh = spec_effective_dim(dims.height, lod);
    let ed = spec_effective_dim(dims.depth, lod);
    spec_mesh_colors_upto(voxels, dims, ew, eh, (ew * eh * ed) as nat)
}

/// Corner indices of the whole effective grid.
pub open spec fn spec_mesh_indices(
    settings: MeshSettings,
    voxels: Seq<Voxel>,
    dims: ChunkDimensions,
    lod: u32,
) -> Seq<u32> {
    let ew = spec_effective_dim(dims.width, lod);
    let eh = spec_effective_dim(dims.height, lod);
    let ed = spec_effective_dim(dims.depth, lod);
    spec_mesh_indices_upto(settings, voxels, dims, ew, eh, (ew * eh * ed) as nat)
}

/// Meshing is deterministic and idempotent: the same buffer, dimensions,
/// level of detail and settings always build the same vertices, colors,
/// indices, normals and bounding volume.
pub proof fn lemma_mesh_deterministic(
    first: MeshData,
    second: MeshData,
    voxels: Seq<Voxel>,
    dims: ChunkDimensions,
    lod: u32,
    settings: MeshSettings,
)
    requires
        first.vertices@ == spec_mesh_vertices(voxels, dims, lod),
        first.colors@ == spec_mesh_colors(voxels, dims, lod),
        first.indices@ == spec_mesh_indices(settings, voxels, dims, lod),
        first.normals@ == spec_flat_normals(first.vertices@, first.indices@),
        first.aabb == spec_aabb_upto(first.vertices@, first.vertices@.len() as nat),
        second.vertices@ == spec_mesh_vertices(voxels, dims, lod),
        second.colors@ == spec_mesh_colors(voxels, dims, lod),
        second.indices@ == spec_mesh_indices(settings, voxels, dims, lod),
        second.normals@ == spec_flat_normals(second.vertices@, second.indices@),
        second.aabb == spec_aabb_upto(second.vertices@, second.vertices@.len() as nat),
    ensures
        first.vertices@ == second.vertices@,
        first.colors@ == second.colors@,
        first.indices@ == second.indices@,
        first.normals@ == second.normals@,
        first.aabb == second.aabb,
{
}

/// A cell whose six in-chunk neighbors are all solid contributes no indices
/// when occlusion culling is on, and all six faces — twelve triangles — when
/// it is off.
pub proof fn lemma_occlusion_interior(
    settings: MeshSettings,
    voxels: Seq<Voxel>,
    dims: ChunkDimensions,
    x: int,
    y: int,
    z: int,
    base: int,
)
    requires
        forall|f: int|
            0 <= f < 6 ==> spec_neighbor_solid(voxels, dims, x, y, z, spec_face_of(f)),
    ensures
        settings.occlusion_culling ==> spec_cell_indices(
            settings,
            voxels,
            dims,
            x,
            y,
            z,
            base,
        ).len() == 0,
        !settings.occlusion_culling ==> spec_cell_indices(
            settings,
            voxels,
            dims,
            x,
            y,
            z,
            base,
        ).len() == 36,
{
    assert forall|f: int| 0 <= f < 6 implies !spec_face_visible(settings, voxels, dims, x, y, z, f)
        || !settings.occlusion_culling by {
        assert(spec_neighbor_solid(voxels, dims, x, y, z, spec_face_of(f)));
    }
    reveal_with_fuel(spec_cell_indices_upto, 7);
    assert(spec_cell_indices_upto(settings, voxels, dims, x, y, z, base, 0).len() == 0);
}

/// One cell's surviving indices always come in whole faces: a multiple of
/// six entries (two triangles per face).
pub proof fn lemma_cell_indices_whole_faces(
    settings: MeshSettings,
    voxels: Seq<Voxel>,
    dims: ChunkDimensions,
    x: int,
    y: int,
    z: int,
    base: int,
    f: nat,
)
    ensures
        spec_cell_indices_upto(settings, voxels, dims, x, y, z, base, f).len() % 6 == 0,
    decreases f,
{
    if f > 0 {
        lemma_cell_indices_whole_faces(settings, voxels, dims, x, y, z, base, (f - 1) as nat);
    }
}

/// The whole index buffer comes in whole triangles (indeed whole faces): its
/// length is a multiple of six.
pub proof fn lemma_mesh_indices_whole_faces(
    settings: MeshSettings,
    voxels: Seq<Voxel>,
    dims: ChunkDimensions,
    ew: int,
    eh: int,
    n: nat,
)
    ensures
        spec_mesh_indices_upto(settings, voxels, dims, ew, eh, n).len() % 6 == 0,
    decreases n,
{
    if n > 0 {
        lemma_mesh_indices_whole_faces(settings, voxels, dims, ew, eh, (n - 1) as nat);
        if spec_cell_solid(voxels, dims, ew, eh, n - 1) {
            lemma_cell_indices_whole_faces(
                settings,
                voxels,
                dims,
                spec_cell_x(n - 1, ew),
                spec_cell_y(n - 1, ew, eh),
                spec_cell_z(n - 1, ew, eh),
                8 * spec_solid_count_upto(voxels, dims, ew, eh, (n - 1) as nat),
                6,
            );
        }
    }
}

/// Exec mirror of [`spec_face_of`].
fn face_of(f: u32) -> (face: VoxelFace)
    requires
        f < 6,
    ensures
        face == spec_face_of(f as int),
{
    match f {
        0 => VoxelFace::Back,
        1 => VoxelFace::Right,
        2 => VoxelFace::Front,
        3 => VoxelFace::Left,
        4 => VoxelFace::Up,
        _ => VoxelFace::Down,
    }
}

/// Exec mirror of [`spec_face_template`], as a tuple of the six entries.
fn face_template(f: u32) -> (t: (u32, u32, u32, u32, u32, u32))
    requires
        f < 6,
    ensures
        ({
            let s = spec_face_template(f as int);
            &&& t.0 == s[0] && t.1 == s[1] && t.2 == s[2]
            &&& t.3 == s[3] && t.4 == s[4] && t.5 == s[5]
            &&& t.0 <= 7 && t.1 <= 7 && t.2 <= 7 && t.3 <= 7 && t.4 <= 7 && t.5 <= 7
        }),
{
    match f {
        0 => (0, 2, 1, 0, 3, 2),
        1 => (1, 6, 5, 1, 2, 6),
        2 => (5, 7, 4, 5, 6, 7),
        3 => (4, 3, 0, 4, 7, 3),
        4 => (3, 6, 2, 3, 7, 6),
        _ => (4, 1, 5, 4, 0, 1),
    }
}

/// The voxel visible through `face` of the cell at `(x, y, z)`, if it exists
/// in this buffer and is solid. A missing or empty neighbor (including one
/// beyond the buffer) yields `None`: that face must be drawn.
pub fn get_voxel_face<'a>(
    voxels: &'a Vec<Voxel>,
    dims: ChunkDimensions,
    x: u32,
    y: u32,
    z: u32,
    face: VoxelFace,
) -> (r: Option<&'a Voxel>)
    requires
        dims.wf(),
        voxels@.len() == dims.spec_volume(),
    ensures
        ({
            let (nx, ny, nz) = spec_face_neighbor(face, x as int, y as int, z as int);
            match r {
                Some(v) => spec_neighbor_solid(voxels@, dims, x as int, y as int, z as int, face)
                    && *v == voxels@[dims.spec_index(nx, ny, nz)],
                None => !spec_neighbor_solid(voxels@, dims, x as int, y as int, z as int, face),
            }
        }),
{
    let (nx, ny, nz): (i64, i64, i64) = match face {
        VoxelFace::Front => (x as i64, y as i64, z as i64 + 1),
        VoxelFace::Back => (x as i64, y as i64, z as i64 - 1),
        VoxelFace::Left => (x as i64 - 1, y as i64, z as i64),
        VoxelFace::Right => (x as i64 + 1, y as i64, z as i64),
        VoxelFace::Up => (x as i64, y as i64 + 1, z as i64),
        VoxelFace::Down => (x as i64, y as i64 - 1, z as i64),
    };
    if nx >= 0 && ny >= 0 && nz >= 0 && nx < dims.width as i64 && ny < dims.height as i64 && nz
        < dims.depth as i64 {
        proof {
            lemma_index_in_volume(dims, nx as int, ny as int, nz as int);
        }
        let w = dims.width as i64;
        let h = dims.height as i64;
        let d = dims.depth as i64;
        assert(ny * w <= 0x100000000000 && nz * w <= 0x100000000000 && nz * w * h
            <= 0x7fffffffffffffff && nx + ny * w + nz * w * h <= 0x7fffffffffffffff)
            by (nonlinear_arith)
            requires
                0 <= nx < w <= u32::MAX,
                0 <= ny < h <= u32::MAX,
                0 <= nz < d <= u32::MAX,
                w * h * d <= u32::MAX,
        {}
        let index = (nx + ny * w + nz * w * h) as usize;
        let v = &voxels[index];
        if v.is_solid() {
            Some(v)
        } else {
            None
        }
    } else {
        None
    }
}

/// World-space edge length of one cell of this voxel at this level of
/// detail.
fn scaled_size(size: i64, lod: u32) -> (s: i64)
    requires
        0 < size <= 16 * FP_ONE,
        lod <= 16,
    ensures
        s == spec_voxel_scale(size as int, lod as int),
        0 <= s <= 4112,
{
    proof {
        assert((lod as int) * (lod as int) <= 256) by (nonlinear_arith)
            requires
                0 <= lod <= 16,
        {}
    }
    let lodsq = (lod * lod) as i64;
    proof {
        assert(0 <= size * (1 + (lod as int) * (lod as int)) <= 16 * (FP_ONE as int) * 257)
            by (nonlinear_arith)
            requires
                0 < size <= 16 * (FP_ONE as int),
                0 <= lod <= 16,
        {}
        assert(0 <= size * (1 + (lod as int) * (lod as int)) / (FP_ONE as int) <= 4112)
            by (nonlinear_arith)
            requires
                0 <= size * (1 + (lod as int) * (lod as int)) <= 16 * (FP_ONE as int) * 257,
        {}
    }
    (size * (1 + lodsq)) / FP_ONE
}

impl Voxel {
    /// The eight cube corners of this voxel at world position `(x, y, z)`
    /// with edge length `size`, and one copy of the voxel's color per
    /// corner.
    pub fn mesh(&self, x: i64, y: i64, z: i64, size: i64) -> (m: VoxelMeshData)
        requires
            0 <= x && 0 <= y && 0 <= z && 0 <= size,
            x + size <= 0x20000000,
            y + size <= 0x20000000,
            z + size <= 0x20000000,
        ensures
            m.vertices@ == spec_cube_corners(x as int, y as int, z as int, size as int),
            m.colors@ == spec_cube_colors(self.color),
            m.vertices@.len() == 8,
            m.colors@.len() == 8,
            forall|k: int|
                0 <= k < 8 ==> {
                    let v = #[trigger] m.vertices@[k];
                    0 <= v.x <= 0x20000000 && 0 <= v.y <= 0x20000000 && 0 <= v.z <= 0x20000000
                },
    {
        let mut vertices: Vec<Vec3i> = Vec::new();
        vertices.push(Vec3i { x, y, z });
        vertices.push(Vec3i { x: x + size, y, z });
        vertices.push(Vec3i { x: x + size, y: y + size, z });
        vertices.push(Vec3i { x, y: y + size, z });
        vertices.push(Vec3i { x, y, z: z + size });
        vertices.push(Vec3i { x: x + size, y, z: z + size });
        vertices.push(Vec3i { x: x + size, y: y + size, z: z + size });
        vertices.push(Vec3i { x, y: y + size, z: z + size });
        let mut colors: Vec<VoxelColor> = Vec::new();
        let mut k: usize = 0;
        while k < 8
            invariant
                k <= 8,
                colors@.len() == k,
                forall|j: int| 0 <= j < k ==> colors@[j] == self.color,
            decreases 8 - k,
        {
            colors.push(self.color);
            k = k + 1;
        }
        proof {
            assert(vertices@ =~= spec_cube_corners(x as int, y as int, z as int, size as int));
            assert(colors@ =~= spec_cube_colors(self.color));
        }
        VoxelMeshData { vertices, colors }
    }
}

/// Append the surviving faces' corner indices of one solid cell.
fn push_cell_indices(
    indices: &mut Vec<u32>,
    voxels: &Vec<Voxel>,
    dims: ChunkDimensions,
    settings: MeshSettings,
    x: u32,
    y: u32,
    z: u32,
    base: u32,
)
    requires
        dims.wf(),
        voxels@.len() == dims.spec_volume(),
        base <= 0x7ffffff8,
    ensures
        final(indices)@ == old(indices)@ + spec_cell_indices(
            settings,
            voxels@,
            dims,
            x as int,
            y as int,
            z as int,
            base as int,
        ),
        forall|j: int|
            old(indices)@.len() <= j < final(indices)@.len() ==> (
            #[trigger] final(indices)@[j]) as int <= base + 7,
{
    let mut f: u32 = 0;
    while f < 6
        invariant
            dims.wf(),
            voxels@.len() == dims.spec_volume(),
            base <= 0x7ffffff8,
            f <= 6,
            indices@ == old(indices)@ + spec_cell_indices_upto(
                settings,
                voxels@,
                dims,
                x as int,
                y as int,
                z as int,
                base as int,
                f as nat,
            ),
            forall|j: int|
                old(indices)@.len() <= j < indices@.len() ==> (#[trigger] indices@[j]) as int
                    <= base + 7,
        decreases 6 - f,
    {
        let visible = if settings.occlusion_culling {
            get_voxel_face(voxels, dims, x, y, z, face_of(f)).is_none()
        } else {
            true
        };
        if visible {
            let t = face_template(f);
            let ghost before = indices@;
            indices.push(base + t.0);
            indices.push(base + t.1);
            indices.push(base + t.2);
            indices.push(base + t.3);
            indices.push(base + t.4);
            indices.push(base + t.5);
            proof {
                let appended = Seq::new(
                    6,
                    |k: int| (base + spec_face_template(f as int)[k]) as u32,
                );
                assert(indices@ =~= before + appended);
            }
        }
        f = f + 1;
    }
}

/// Cross product of the two edge vectors of a triangle: its flat normal.
fn triangle_normal(v0: Vec3i, v1: Vec3i, v2: Vec3i) -> (n: Vec3i)
    requires
        0 <= v0.x <= 0x20000000 && 0 <= v0.y <= 0x20000000 && 0 <= v0.z <= 0x20000000,
        0 <= v1.x <= 0x20000000 && 0 <= v1.y <= 0x20000000 && 0 <= v1.z <= 0x20000000,
        0 <= v2.x <= 0x20000000 && 0 <= v2.y <= 0x20000000 && 0 <= v2.z <= 0x20000000,
    ensures
        n == spec_cross(spec_vec3i_sub(v1, v0), spec_vec3i_sub(v2, v0)),
{
    let ax = v1.x - v0.x;
    let ay = v1.y - v0.y;
    let az = v1.z - v0.z;
    let bx = v2.x - v0.x;
    let by = v2.y - v0.y;
    let bz = v2.z - v0.z;
    proof {
        assert(forall|p: int, q: int|
            -0x20000000 <= p <= 0x20000000 && -0x20000000 <= q <= 0x20000000
                ==> -0x400000000000000 <= #[trigger] (p * q) <= 0x400000000000000)
            by (nonlinear_arith);
    }
    Vec3i { x: ay * bz - az * by, y: az * bx - ax * bz, z: ax * by - ay * bx }
}

/// One unnormalized flat normal per triangle of the index buffer.
fn compute_flat_normals(vertices: &Vec<Vec3i>, indices: &Vec<u32>) -> (normals: Vec<Vec3i>)
    requires
        forall|j: int|
            0 <= j < indices@.len() ==> ((#[trigger] indices@[j]) as int) < vertices@.len(),
        forall|k: int|
            0 <= k < vertices@.len() ==> {
                let v = #[trigger] vertices@[k];
                0 <= v.x <= 0x20000000 && 0 <= v.y <= 0x20000000 && 0 <= v.z <= 0x20000000
            },
    ensures
        normals@ == spec_flat_normals(vertices@, indices@),
{
    let ilen = indices.len();
    let count = ilen / 3;
    let mut normals: Vec<Vec3i> = Vec::new();
    let mut t: usize = 0;
    while t < count
        invariant
            ilen == indices@.len(),
            count == indices@.len() / 3,
            forall|j: int|
                0 <= j < indices@.len() ==> ((#[trigger] indices@[j]) as int) < vertices@.len(),
            forall|k: int|
                0 <= k < vertices@.len() ==> {
                    let v = #[trigger] vertices@[k];
                    0 <= v.x <= 0x20000000 && 0 <= v.y <= 0x20000000 && 0 <= v.z <= 0x20000000
                },
            t <= count,
            normals@.len() == t,
            forall|u: int|
                0 <= u < t ==> #[trigger] normals@[u] == spec_triangle_normal(
                    vertices@,
                    indices@,
                    u,
                ),
        decreases count - t,
    {
        proof {
            assert(3 * (t as int) + 2 < indices@.len()) by (nonlinear_arith)
                requires
                    0 <= t < count,
                    count == indices@.len() / 3,
            {}
        }
        let i0 = indices[3 * t] as usize;
        let i1 = indices[3 * t + 1] as usize;
        let i2 = indices[3 * t + 2] as usize;
        let n = triangle_normal(vertices[i0], vertices[i1], vertices[i2]);
        normals.push(n);
        t = t + 1;
    }
    proof {
        assert(normals@ =~= spec_flat_normals(vertices@, indices@));
    }
    normals
}

/// Axis-aligned bounding box of all vertices.
fn compute_aabb(vertices: &Vec<Vec3i>) -> (r: Option<Aabb>)
    ensures
        r == spec_aabb_upto(vertices@, vertices@.len() as nat),
{
    let mut acc: Option<Aabb> = None;
    let mut i: usize = 0;
    while i < vertices.len()
        invariant
            i <= vertices@.len(),
            acc == spec_aabb_upto(vertices@, i as nat),
        decreases vertices@.len() - i,
    {
        let v = vertices[i];
        acc = match acc {
            None => Some(Aabb { min: v, max: v }),
            Some(b) => Some(
                Aabb {
                    min: Vec3i {
                        x: if b.min.x < v.x {
                            b.min.x
                        } else {
                            v.x
                        },
                        y: if b.min.y < v.y {
                            b.min.y
                        } else {
                            v.y
                        },
                        z: if b.min.z < v.z {
                            b.min.z
                        } else {
                            v.z
                        },
                    },
                    max: Vec3i {
                        x: if b.max.x > v.x {
                            b.max.x
                        } else {
                            v.x
                        },
                        y: if b.max.y > v.y {
                            b.max.y
                        } else {
                            v.y
                        },
                        z: if b.max.z > v.z {
                            b.max.z
                        } else {
                            v.z
                        },
                    },
                },
            ),
        };
        i = i + 1;
    }
    acc
}

/// Build the mesh of all solid voxels of one buffer at one level of detail,
/// with no adjacent buffers: every boundary face stays visible, as for a
/// lone block in open air. [`mesh_with_neighbors`] culls across chunk
/// boundaries instead, and against empty surroundings the two builds agree
/// ([`lemma_mesh_like_lone_buffer`]).
///
/// The result is an exact function of the arguments: vertices, colors and
/// indices follow the cell walk, normals are per-triangle cross products and
/// the bounding volume is the fold of the vertices. Every index points into
/// the vertex buffer, and indices come in whole triangles.
pub fn mesh(voxels: &Vec<Voxel>, lod: u32, settings: MeshSettings, dims: ChunkDimensions) -> (m:
    MeshData)
    requires
        mesh_input_valid(voxels@, dims, lod),
    ensures
        m.vertices@ == spec_mesh_vertices(voxels@, dims, lod),
        m.colors@ == spec_mesh_colors(voxels@, dims, lod),
        m.indices@ == spec_mesh_indices(settings, voxels@, dims, lod),
        m.normals@ == spec_flat_normals(m.vertices@, m.indices@),
        m.aabb == spec_aabb_upto(m.vertices@, m.vertices@.len() as nat),
        m.vertices@.len() == m.colors@.len(),
        m.indices@.len() % 6 == 0,
        forall|j: int|
            0 <= j < m.indices@.len() ==> ((#[trigger] m.indices@[j]) as int) < m.vertices@.len(),
{
    let ew32 = dims.width >> lod;
    let eh32 = dims.height >> lod;
    let ed32 = dims.depth >> lod;
    proof {
        lemma_u32_shr_is_div(dims.width, lod);
        lemma_u32_shr_is_div(dims.height, lod);
        lemma_u32_shr_is_div(dims.depth, lod);
        lemma_pow2_pos(lod as nat);
        vstd::arithmetic::div_mod::lemma_div_nonincreasing(
            dims.width as int,
            pow2(lod as nat) as int,
        );
        vstd::arithmetic::div_mod::lemma_div_nonincreasing(
            dims.height as int,
            pow2(lod as nat) as int,
        );
        vstd::arithmetic::div_mod::lemma_div_nonincreasing(
            dims.depth as int,
            pow2(lod as nat) as int,
        );
        assert((ew32 as int) * (eh32 as int) <= 0x1000000 && (ew32 as int) * (eh32 as int) * (
        ed32 as int) <= 0x10000000) by (nonlinear_arith)
            requires
                0 <= ew32 <= dims.width,
                0 <= eh32 <= dims.height,
                0 <= ed32 <= dims.depth,
                dims.width <= 4096,
                dims.height <= 4096,
                dims.depth <= 4096,
                (dims.width as int) * (dims.height as int) * (dims.depth as int) <= 0x10000000,
                dims.wf(),
        {}
    }
    let ew = ew32 as usize;
    let eh = eh32 as usize;
    let ed = ed32 as usize;
    let layer = ew * eh;
    let evol = layer * ed;
    let mut vertices: Vec<Vec3i> = Vec::new();
    let mut colors: Vec<VoxelColor> = Vec::new();
    let mut indices: Vec<u32> = Vec::new();
    let mut solid_cells: usize = 0;
    let mut i: usize = 0;
    while i < evol
        invariant
            mesh_input_valid(voxels@, dims, lod),
            ew == spec_effective_dim(dims.width, lod),
            eh == spec_effective_dim(dims.height, lod),
            ed == spec_effective_dim(dims.depth, lod),
            ew <= dims.width && eh <= dims.height && ed <= dims.depth,
            layer == ew * eh,
            evol == layer * ed,
            evol <= 0x10000000,
            i <= evol,
            solid_cells == spec_solid_count_upto(voxels@, dims, ew as int, eh as int, i as nat),
            solid_cells <= i,
            vertices@.len() == 8 * solid_cells,
            colors@.len() == vertices@.len(),
            vertices@ == spec_mesh_vertices_upto(
                voxels@,
                dims,
                lod,
                ew as int,
                eh as int,
                i as nat,
            ),
            colors@ == spec_mesh_colors_upto(voxels@, dims, ew as int, eh as int, i as nat),
            indices@ == spec_mesh_indices_upto(
                settings,
                voxels@,
                dims,
                ew as int,
                eh as int,
                i as nat,
            ),
            forall|j: int|
                0 <= j < indices@.len() ==> ((#[trigger] indices@[j]) as int) < vertices@.len(),
            forall|k: int|
                0 <= k < vertices@.len() ==> {
                    let v = #[trigger] vertices@[k];
                    0 <= v.x <= 0x20000000 && 0 <= v.y <= 0x20000000 && 0 <= v.z <= 0x20000000
                },
        decreases evol - i,
    {
        proof {
            assert(ew > 0 && eh > 0 && ed > 0) by (nonlinear_arith)
                requires
                    (layer as int) == (ew as int) * (eh as int),
                    (evol as int) == (layer as int) * (ed as int),
                    0 <= i < evol,
                    ew >= 0,
                    eh >= 0,
                    ed >= 0,
            {}
        }
        let x = i % ew;
        let y = (i / ew) % eh;
        let z = i / layer;
        proof {
            vstd::arithmetic::div_mod::lemma_mod_bound(i as int, ew as int);
            vstd::arithmetic::div_mod::lemma_mod_bound((i as int) / (ew as int), eh as int);
            vstd::arithmetic::div_mod::lemma_div_pos_is_pos(i as int, ew as int);
            vstd::arithmetic::div_mod::lemma_div_pos_is_pos(i as int, layer as int);
            assert((i as int) / ((ew as int) * (eh as int)) < ed) by (nonlinear_arith)
                requires
                    0 <= i < evol,
                    (evol as int) == (ew as int) * (eh as int) * (ed as int),
                    (layer as int) == (ew as int) * (eh as int),
                    ew > 0,
                    eh > 0,
                    ed > 0,
            {}
            assert(z == spec_cell_z(i as int, ew as int, eh as int));
            lemma_index_in_volume(dims, x as int, y as int, z as int);
        }
        let w = dims.width as usize;
        let h = dims.height as usize;
        proof {
            let dd = dims.depth as int;
            assert((y as int) * (w as int) < (w as int) * (h as int) * dd && (z as int) * (w as int)
                < (w as int) * (h as int) * dd && (z as int) * (w as int) * (h as int) < (w as int) * (h as int)
                * dd && (x as int) + (y as int) * (w as int) + (z as int) * (w as int) * (h as int)
                < (w as int) * (h as int) * dd) by (nonlinear_arith)
                requires
                    0 <= x < w,
                    0 <= y < h,
                    0 <= z < dd,
                    w > 0,
                    h > 0,
                    dd > 0,
            {}
            assert((w as int) * (h as int) * dd <= 0x10000000);
        }
        let index = x + y * w + z * w * h;
        let voxel = voxels[index];
        if voxel.is_solid() {
            let s = scaled_size(voxel.size, lod);
            let base = vertices.len() as u32;
            push_cell_indices(
                &mut indices,
                voxels,
                dims,
                settings,
                x as u32,
                y as u32,
                z as u32,
                base,
            );
            proof {
                assert(0 <= (x as int) * (s as int) && (x as int) * (s as int) + s <= 0x20000000
                    && 0 <= (y as int) * (s as int) && (y as int) * (s as int) + s <= 0x20000000
                    && 0 <= (z as int) * (s as int) && (z as int) * (s as int) + s <= 0x20000000)
                    by (nonlinear_arith)
                    requires
                        0 <= x <= 4096,
                        0 <= y <= 4096,
                        0 <= z <= 4096,
                        0 <= s <= 4112,
                {}
            }
            let cell = voxel.mesh((x as i64) * s, (y as i64) * s, (z as i64) * s, s);
            let mut cell_vertices = cell.vertices;
            let mut cell_colors = cell.colors;
            vertices.append(&mut cell_vertices);
            colors.append(&mut cell_colors);
            solid_cells = solid_cells + 1;
        }
        i = i + 1;
        proof {
            assert(spec_cell_voxel(voxels@, dims, ew as int, eh as int, i - 1) == voxel);
            assert(vertices@ == spec_mesh_vertices_upto(
                voxels@,
                dims,
                lod,
                ew as int,
                eh as int,
                i as nat,
            ));
            assert(colors@ == spec_mesh_colors_upto(voxels@, dims, ew as int, eh as int, i as nat));
            assert(indices@ == spec_mesh_indices_upto(
                settings,
                voxels@,
                dims,
                ew as int,
                eh as int,
                i as nat,
            ));
        }
    }
    proof {
        lemma_mesh_indices_whole_faces(
            settings,
            voxels@,
            dims,
            ew as int,
            eh as int,
            evol as nat,
        );
    }
    let normals = compute_flat_normals(&vertices, &indices);
    let aabb = compute_aabb(&vertices);
    MeshData { vertices, colors, indices, normals, aabb }
}

/// The neighbor-buffer slot consulted for each face, in the registry's
/// adjacency order +x, -x, +z, -z, +y, -y.
pub open spec fn spec_face_slot(face: VoxelFace) -> int {
    match face {
        VoxelFace::Right => 0,
        VoxelFace::Left => 1,
        VoxelFace::Front => 2,
        VoxelFace::Back => 3,
        VoxelFace::Up => 4,
        VoxelFace::Down => 5,
    }
}

/// The cell of the adjacent chunk seen from `(x, y, z)` through `face`: the
/// face axis wraps to the opposite edge of the neighbor's buffer, the other
/// axes carry over.
pub open spec fn spec_wrapped_neighbor(
    dims: ChunkDimensions,
    x: int,
    y: int,
    z: int,
    face: VoxelFace,
) -> (int, int, int) {
    match face {
        VoxelFace::Right => (0, y, z),
        VoxelFace::Left => (dims.width - 1, y, z),
        VoxelFace::Front => (x, y, 0),
        VoxelFace::Back => (x, y, dims.depth - 1),
        VoxelFace::Up => (x, 0, z),
        VoxelFace::Down => (x, dims.height - 1, z),
    }
}

/// The six neighbor buffers as spec values, slot order +x, -x, +z, -z, +y,
/// -y; `None` stands for the world edge.
pub open spec fn spec_neighbor_views(neighbors: [Option<&Vec<Voxel>>; 6]) -> Seq<
    Option<Seq<Voxel>>,
> {
    Seq::new(
        6,
        |i: int|
            match neighbors@[i] {
                Some(buffer) => Some(buffer@),
                None => None,
            },
    )
}

/// Every provided neighbor buffer has this chunk's volume (chunks of one
/// registry share their dimensions).
pub open spec fn neighbors_wf(neighbors: Seq<Option<Seq<Voxel>>>, dims: ChunkDimensions) -> bool {
    &&& neighbors.len() == 6
    &&& forall|i: int|
        0 <= i < 6 ==> ((#[trigger] neighbors[i]) matches Some(buffer) ==> buffer.len()
            == dims.spec_volume())
}

/// Cross-boundary neighbor-solidity: a neighbor cell inside this buffer is
/// read here; one beyond the boundary is read from the adjacent chunk's
/// buffer at the wrapped coordinate; where no adjacent buffer exists the
/// boundary is the world edge and counts as solid, so no spurious faces open
/// there.
pub open spec fn spec_neighbor_solid_with(
    voxels: Seq<Voxel>,
    neighbors: Seq<Option<Seq<Voxel>>>,
    dims: ChunkDimensions,
    x: int,
    y: int,
    z: int,
    face: VoxelFace,
) -> bool {
    let (nx, ny, nz) = spec_face_neighbor(face, x, y, z);
    if dims.in_bounds(nx, ny, nz) {
        voxels[dims.spec_index(nx, ny, nz)].is_solid
    } else {
        match neighbors[spec_face_slot(face)] {
            Some(buffer) => {
                let (wx, wy, wz) = spec_wrapped_neighbor(dims, x, y, z, face);
                buffer[dims.spec_index(wx, wy, wz)].is_solid
            },
            None => true,
        }
    }
}

/// Face culling against the neighbor-aware lookup.
pub open spec fn spec_face_visible_with(
    settings: MeshSettings,
    voxels: Seq<Voxel>,
    neighbors: Seq<Option<Seq<Voxel>>>,
    dims: ChunkDimensions,
    x: int,
    y: int,
    z: int,
    f: int,
) -> bool {
    !settings.occlusion_culling || !spec_neighbor_solid_with(
        voxels,
        neighbors,
        dims,
        x,
        y,
        z,
        spec_face_of(f),
    )
}

/// Corner indices of the first `f` faces of one solid cell under the
/// neighbor-aware culling.
pub open spec fn spec_cell_indices_upto_with(
    settings: MeshSettings,
    voxels: Seq<Voxel>,
    neighbors: Seq<Option<Seq<Voxel>>>,
    dims: ChunkDimensions,
    x: int,
    y: int,
    z: int,
    base: int,
    f: nat,
) -> Seq<u32>
    decreases f,
{
    if f == 0 {
        Seq::empty()
    } else {
        spec_cell_indices_upto_with(settings, voxels, neighbors, dims, x, y, z, base, (f - 1) as nat)
            + if spec_face_visible_with(settings, voxels, neighbors, dims, x, y, z, f - 1) {
            Seq::new(6, |k: int| (base + spec_face_template(f - 1)[k]) as u32)
        } else {
            Seq::empty()
        }
    }
}

/// All corner indices of one solid cell under the neighbor-aware culling.
pub open spec fn spec_cell_indices_with(
    settings: MeshSettings,
    voxels: Seq<Voxel>,
    neighbors: Seq<Option<Seq<Voxel>>>,
    dims: ChunkDimensions,
    x: int,
    y: int,
    z: int,
    base: int,
) -> Seq<u32> {
    spec_cell_indices_upto_with(settings, voxels, neighbors, dims, x, y, z, base, 6)
}

/// Corner indices of the first `n` cells under the neighbor-aware culling.
pub open spec fn spec_mesh_indices_upto_with(
    settings: MeshSettings,
    voxels: Seq<Voxel>,
    neighbors: Seq<Option<Seq<Voxel>>>,
    dims: ChunkDimensions,
    ew: int,
    eh: int,
    n: nat,
) -> Seq<u32>
    decreases n,
{
    if n == 0 {
        Seq::empty()
    } else {
        spec_mesh_indices_upto_with(settings, voxels, neighbors, dims, ew, eh, (n - 1) as nat)
            + if spec_cell_solid(voxels, dims, ew, eh, n - 1) {
            spec_cell_indices_with(
                settings,
                voxels,
                neighbors,
                dims,
                spec_cell_x(n - 1, ew),
                spec_cell_y(n - 1, ew, eh),
                spec_cell_z(n - 1, ew, eh),
                8 * spec_solid_count_upto(voxels, dims, ew, eh, (n - 1) as nat),
            )
        } else {
            Seq::empty()
        }
    }
}

/// Corner indices of the whole effective grid under the neighbor-aware
/// culling.
pub open spec fn spec_mesh_indices_with(
    settings: MeshSettings,
    voxels: Seq<Voxel>,
    neighbors: Seq<Option<Seq<Voxel>>>,
    dims: ChunkDimensions,
    lod: u32,
) -> Seq<u32> {
    let ew = spec_effective_dim(dims.width, lod);
    let eh = spec_effective_dim(dims.height, lod);
    let ed = spec_effective_dim(dims.depth, lod);
    spec_mesh_indices_upto_with(settings, voxels, neighbors, dims, ew, eh, (ew * eh * ed) as nat)
}

/// Occlusion correctness across chunk boundaries: a cell whose six neighbors
/// are all solid under the neighbor-aware lookup — whether in this buffer, in
/// an adjacent one, or at the always-solid world edge — contributes no
/// indices when occlusion culling is on, and all six faces (twelve
/// triangles) when it is off.
pub proof fn lemma_occlusion_interior_with(
    settings: MeshSettings,
    voxels: Seq<Voxel>,
    neighbors: Seq<Option<Seq<Voxel>>>,
    dims: ChunkDimensions,
    x: int,
    y: int,
    z: int,
    base: int,
)
    requires
        forall|f: int|
            0 <= f < 6 ==> spec_neighbor_solid_with(
                voxels,
                neighbors,
                dims,
                x,
                y,
                z,
                spec_face_of(f),
            ),
    ensures
        settings.occlusion_culling ==> spec_cell_indices_with(
            settings,
            voxels,
            neighbors,
            dims,
            x,
            y,
            z,
            base,
        ).len() == 0,
        !settings.occlusion_culling ==> spec_cell_indices_with(
            settings,
            voxels,
            neighbors,
            dims,
            x,
            y,
            z,
            base,
        ).len() == 36,
{
    assert forall|f: int| 0 <= f < 6 implies !spec_face_visible_with(
        settings,
        voxels,
        neighbors,
        dims,
        x,
        y,
        z,
        f,
    ) || !settings.occlusion_culling by {
        assert(spec_neighbor_solid_with(voxels, neighbors, dims, x, y, z, spec_face_of(f)));
    }
    reveal_with_fuel(spec_cell_indices_upto_with, 7);
    assert(spec_cell_indices_upto_with(settings, voxels, neighbors, dims, x, y, z, base, 0).len()
        == 0);
}

/// The neighbor-aware index buffer also comes in whole faces.
pub proof fn lemma_cell_indices_whole_faces_with(
    settings: MeshSettings,
    voxels: Seq<Voxel>,
    neighbors: Seq<Option<Seq<Voxel>>>,
    dims: ChunkDimensions,
    x: int,
    y: int,
    z: int,
    base: int,
    f: nat,
)
    ensures
        spec_cell_indices_upto_with(settings, voxels, neighbors, dims, x, y, z, base, f).len() % 6
            == 0,
    decreases f,
{
    if f > 0 {
        lemma_cell_indices_whole_faces_with(
            settings,
            voxels,
            neighbors,
            dims,
            x,
            y,
            z,
            base,
            (f - 1) as nat,
        );
    }
}

pub proof fn lemma_mesh_indices_whole_faces_with(
    settings: MeshSettings,
    voxels: Seq<Voxel>,
    neighbors: Seq<Option<Seq<Voxel>>>,
    dims: ChunkDimensions,
    ew: int,
    eh: int,
    n: nat,
)
    ensures
        spec_mesh_indices_upto_with(settings, voxels, neighbors, dims, ew, eh, n).len() % 6 == 0,
    decreases n,
{
    if n > 0 {
        lemma_mesh_indices_whole_faces_with(
            settings,
            voxels,
            neighbors,
            dims,
            ew,
            eh,
            (n - 1) as nat,
        );
        if spec_cell_solid(voxels, dims, ew, eh, n - 1) {
            lemma_cell_indices_whole_faces_with(
                settings,
                voxels,
                neighbors,
                dims,
                spec_cell_x(n - 1, ew),
                spec_cell_y(n - 1, ew, eh),
                spec_cell_z(n - 1, ew, eh),
                8 * spec_solid_count_upto(voxels, dims, ew, eh, (n - 1) as nat),
                6,
            );
        }
    }
}

/// Six adjacent buffers of the right shape with no solid voxel anywhere:
/// open air on every side.
pub open spec fn spec_empty_surroundings(
    neighbors: Seq<Option<Seq<Voxel>>>,
    dims: ChunkDimensions,
) -> bool {
    &&& neighbors_wf(neighbors, dims)
    &&& forall|i: int|
        0 <= i < 6 ==> match #[trigger] neighbors[i] {
            Some(buffer) => forall|j: int| 0 <= j < buffer.len() ==> !(#[trigger] buffer[j]).is_solid,
            None => false,
        }
}

/// Against empty surroundings the cross-boundary lookup agrees with the
/// lone-buffer lookup for every face of an in-bounds cell: an out-of-buffer
/// neighbor is empty either way.
pub proof fn lemma_empty_surroundings_neighbor(
    voxels: Seq<Voxel>,
    neighbors: Seq<Option<Seq<Voxel>>>,
    dims: ChunkDimensions,
    x: int,
    y: int,
    z: int,
    face: VoxelFace,
)
    requires
        dims.wf(),
        dims.in_bounds(x, y, z),
        spec_empty_surroundings(neighbors, dims),
    ensures
        spec_neighbor_solid_with(voxels, neighbors, dims, x, y, z, face) == spec_neighbor_solid(
            voxels,
            dims,
            x,
            y,
            z,
            face,
        ),
{
    let (nx, ny, nz) = spec_face_neighbor(face, x, y, z);
    if !dims.in_bounds(nx, ny, nz) {
        let (wx, wy, wz) = spec_wrapped_neighbor(dims, x, y, z, face);
        assert(dims.in_bounds(wx, wy, wz));
        lemma_index_in_volume(dims, wx, wy, wz);
        let slot = spec_face_slot(face);
        assert(neighbors[slot] is Some);
    }
}

/// Against empty surroundings one cell's neighbor-aware indices equal its
/// lone-buffer indices.
pub proof fn lemma_empty_surroundings_cell(
    settings: MeshSettings,
    voxels: Seq<Voxel>,
    neighbors: Seq<Option<Seq<Voxel>>>,
    dims: ChunkDimensions,
    x: int,
    y: int,
    z: int,
    base: int,
    f: nat,
)
    requires
        dims.wf(),
        dims.in_bounds(x, y, z),
        spec_empty_surroundings(neighbors, dims),
    ensures
        spec_cell_indices_upto_with(settings, voxels, neighbors, dims, x, y, z, base, f)
            == spec_cell_indices_upto(settings, voxels, dims, x, y, z, base, f),
    decreases f,
{
    if f > 0 {
        lemma_empty_surroundings_cell(
            settings,
            voxels,
            neighbors,
            dims,
            x,
            y,
            z,
            base,
            (f - 1) as nat,
        );
        lemma_empty_surroundings_neighbor(voxels, neighbors, dims, x, y, z, spec_face_of(f - 1));
    }
}

/// The lone-buffer mesher is the neighbor-aware mesher against empty
/// surroundings: with six empty adjacent buffers the two index buffers agree
/// on every prefix of the cell walk.
pub proof fn lemma_mesh_like_lone_buffer(
    settings: MeshSettings,
    voxels: Seq<Voxel>,
    neighbors: Seq<Option<Seq<Voxel>>>,
    dims: ChunkDimensions,
    ew: int,
    eh: int,
    ed: int,
    n: nat,
)
    requires
        dims.wf(),
        spec_empty_surroundings(neighbors, dims),
        0 <= ew <= dims.width,
        0 <= eh <= dims.height,
        0 <= ed <= dims.depth,
        n <= ew * eh * ed,
    ensures
        spec_mesh_indices_upto_with(settings, voxels, neighbors, dims, ew, eh, n)
            == spec_mesh_indices_upto(settings, voxels, dims, ew, eh, n),
    decreases n,
{
    if n > 0 {
        assert((n - 1) as nat <= ew * eh * ed);
        lemma_mesh_like_lone_buffer(
            settings,
            voxels,
            neighbors,
            dims,
            ew,
            eh,
            ed,
            (n - 1) as nat,
        );
        if spec_cell_solid(voxels, dims, ew, eh, n - 1) {
            let i = n - 1;
            assert(ew > 0 && eh > 0 && ed > 0) by (nonlinear_arith)
                requires
                    0 <= i < ew * eh * ed,
                    ew >= 0,
                    eh >= 0,
                    ed >= 0,
            {}
            let x = spec_cell_x(i, ew);
            let y = spec_cell_y(i, ew, eh);
            let z = spec_cell_z(i, ew, eh);
            assert(ew * eh > 0) by (nonlinear_arith)
                requires
                    ew > 0,
                    eh > 0,
            {}
            vstd::arithmetic::div_mod::lemma_mod_bound(i, ew);
            vstd::arithmetic::div_mod::lemma_mod_bound(i / ew, eh);
            vstd::arithmetic::div_mod::lemma_div_pos_is_pos(i, ew);
            vstd::arithmetic::div_mod::lemma_div_pos_is_pos(i, ew * eh);
            vstd::arithmetic::div_mod::lemma_fundamental_div_mod(i, ew * eh);
            vstd::arithmetic::div_mod::lemma_mod_bound(i, ew * eh);
            assert(z < ed) by (nonlinear_arith)
                requires
                    0 <= i < ew * eh * ed,
                    i == (ew * eh) * (i / (ew * eh)) + i % (ew * eh),
                    0 <= i % (ew * eh) < ew * eh,
                    z == i / (ew * eh),
                    0 <= z,
                    ew > 0,
                    eh > 0,
                    ed > 0,
            {}
            assert(dims.in_bounds(x, y, z));
            lemma_empty_surroundings_cell(
                settings,
                voxels,
                neighbors,
                dims,
                x,
                y,
                z,
                8 * spec_solid_count_upto(voxels, dims, ew, eh, (n - 1) as nat),
                6,
            );
        }
    }
}

/// Whether the neighbor seen through `face` of the in-bounds cell
/// `(x, y, z)` is solid, consulting the adjacent chunk's buffer across the
/// boundary and treating an absent neighbor as the solid world edge.
fn neighbor_solid_with(
    voxels: &Vec<Voxel>,
    neighbors: &[Option<&Vec<Voxel>>; 6],
    dims: ChunkDimensions,
    x: u32,
    y: u32,
    z: u32,
    face: VoxelFace,
) -> (r: bool)
    requires
        dims.wf(),
        voxels@.len() == dims.spec_volume(),
        dims.in_bounds(x as int, y as int, z as int),
        neighbors_wf(spec_neighbor_views(*neighbors), dims),
    ensures
        r == spec_neighbor_solid_with(
            voxels@,
            spec_neighbor_views(*neighbors),
            dims,
            x as int,
            y as int,
            z as int,
            face,
        ),
{
    let (nx, ny, nz): (i64, i64, i64) = match face {
        VoxelFace::Front => (x as i64, y as i64, z as i64 + 1),
        VoxelFace::Back => (x as i64, y as i64, z as i64 - 1),
        VoxelFace::Left => (x as i64 - 1, y as i64, z as i64),
        VoxelFace::Right => (x as i64 + 1, y as i64, z as i64),
        VoxelFace::Up => (x as i64, y as i64 + 1, z as i64),
        VoxelFace::Down => (x as i64, y as i64 - 1, z as i64),
    };
    let w = dims.width as i64;
    let h = dims.height as i64;
    let d = dims.depth as i64;
    if nx >= 0 && ny >= 0 && nz >= 0 && nx < w && ny < h && nz < d {
        proof {
            lemma_index_in_volume(dims, nx as int, ny as int, nz as int);
        }
        assert(ny * w <= 0x100000000000 && nz * w <= 0x100000000000 && nz * w * h
            <= 0x7fffffffffffffff && nx + ny * w + nz * w * h <= 0x7fffffffffffffff)
            by (nonlinear_arith)
            requires
                0 <= nx < w <= u32::MAX,
                0 <= ny < h <= u32::MAX,
                0 <= nz < d <= u32::MAX,
                w * h * d <= u32::MAX,
        {}
        let index = (nx + ny * w + nz * w * h) as usize;
        voxels[index].is_solid
    } else {
        let slot: usize = match face {
            VoxelFace::Right => 0,
            VoxelFace::Left => 1,
            VoxelFace::Front => 2,
            VoxelFace::Back => 3,
            VoxelFace::Up => 4,
            VoxelFace::Down => 5,
        };
        match neighbors[slot] {
            Some(buffer) => {
                let (wx, wy, wz): (u32, u32, u32) = match face {
                    VoxelFace::Right => (0, y, z),
                    VoxelFace::Left => (dims.width - 1, y, z),
                    VoxelFace::Front => (x, y, 0),
                    VoxelFace::Back => (x, y, dims.depth - 1),
                    VoxelFace::Up => (x, 0, z),
                    VoxelFace::Down => (x, dims.height - 1, z),
                };
                proof {
                    assert(spec_wrapped_neighbor(dims, x as int, y as int, z as int, face).0
                        == wx as int && spec_wrapped_neighbor(
                        dims,
                        x as int,
                        y as int,
                        z as int,
                        face,
                    ).1 == wy as int && spec_wrapped_neighbor(
                        dims,
                        x as int,
                        y as int,
                        z as int,
                        face,
                    ).2 == wz as int);
                    assert(dims.in_bounds(wx as int, wy as int, wz as int));
                    lemma_index_in_volume(dims, wx as int, wy as int, wz as int);
                    assert(spec_neighbor_views(*neighbors)[slot as int] == Some(buffer@));
                    assert(buffer@.len() == dims.spec_volume());
                }
                let ww = dims.width as i64;
                let hh = dims.height as i64;
                let dd = dims.depth as i64;
                assert((wy as i64) * ww <= 0x100000000000 && (wz as i64) * ww <= 0x100000000000
                    && (wz as i64) * ww * hh <= 0x7fffffffffffffff && wx as i64 + (wy as i64) * ww
                    + (wz as i64) * ww * hh <= 0x7fffffffffffffff) by (nonlinear_arith)
                    requires
                        0 <= wx < ww <= u32::MAX,
                        0 <= wy < hh <= u32::MAX,
                        0 <= wz < dd <= u32::MAX,
                        ww * hh * dd <= u32::MAX,
                {}
                let index = (wx as i64 + (wy as i64) * ww + (wz as i64) * ww * hh) as usize;
                buffer[index].is_solid
            },
            None => true,
        }
    }
}

/// Append the surviving faces' corner indices of one solid cell, culling
/// against the neighbor-aware lookup.
fn push_cell_indices_with(
    indices: &mut Vec<u32>,
    voxels: &Vec<Voxel>,
    neighbors: &[Option<&Vec<Voxel>>; 6],
    dims: ChunkDimensions,
    settings: MeshSettings,
    x: u32,
    y: u32,
    z: u32,
    base: u32,
)
    requires
        dims.wf(),
        voxels@.len() == dims.spec_volume(),
        dims.in_bounds(x as int, y as int, z as int),
        neighbors_wf(spec_neighbor_views(*neighbors), dims),
        base <= 0x7ffffff8,
    ensures
        final(indices)@ == old(indices)@ + spec_cell_indices_with(
            settings,
            voxels@,
            spec_neighbor_views(*neighbors),
            dims,
            x as int,
            y as int,
            z as int,
            base as int,
        ),
        forall|j: int|
            old(indices)@.len() <= j < final(indices)@.len() ==> (
            #[trigger] final(indices)@[j]) as int <= base + 7,
{
    let mut f: u32 = 0;
    while f < 6
        invariant
            dims.wf(),
            voxels@.len() == dims.spec_volume(),
            dims.in_bounds(x as int, y as int, z as int),
            neighbors_wf(spec_neighbor_views(*neighbors), dims),
            base <= 0x7ffffff8,
            f <= 6,
            indices@ == old(indices)@ + spec_cell_indices_upto_with(
                settings,
                voxels@,
                spec_neighbor_views(*neighbors),
                dims,
                x as int,
                y as int,
                z as int,
                base as int,
                f as nat,
            ),
            forall|j: int|
                old(indices)@.len() <= j < indices@.len() ==> (#[trigger] indices@[j]) as int
                    <= base + 7,
        decreases 6 - f,
    {
        let visible = if settings.occlusion_culling {
            !neighbor_solid_with(voxels, neighbors, dims, x, y, z, face_of(f))
        } else {
            true
        };
        if visible {
            let t = face_template(f);
            let ghost before = indices@;
            indices.push(base + t.0);
            indices.push(base + t.1);
            indices.push(base + t.2);
            indices.push(base + t.3);
            indices.push(base + t.4);
            indices.push(base + t.5);
            proof {
                let appended = Seq::new(
                    6,
                    |k: int| (base + spec_face_template(f as int)[k]) as u32,
                );
                assert(indices@ =~= before + appended);
            }
        }
        f = f + 1;
    }
}

/// Build the mesh of one buffer with its six face-adjacent neighbor buffers
/// (registry order +x, -x, +z, -z, +y, -y): face culling consults the
/// adjacent chunk across each chunk boundary instead of treating the
/// boundary as empty, and an absent neighbor is the world edge, which counts
/// as solid so no spurious faces open there. Vertices, colors, normals and
/// the bounding volume are exactly those of [`mesh`]; only the culling —
/// hence the index buffer — differs.
pub fn mesh_with_neighbors(
    voxels: &Vec<Voxel>,
    neighbors: &[Option<&Vec<Voxel>>; 6],
    lod: u32,
    settings: MeshSettings,
    dims: ChunkDimensions,
) -> (m: MeshData)
    requires
        mesh_input_valid(voxels@, dims, lod),
        neighbors_wf(spec_neighbor_views(*neighbors), dims),
    ensures
        m.vertices@ == spec_mesh_vertices(voxels@, dims, lod),
        m.colors@ == spec_mesh_colors(voxels@, dims, lod),
        m.indices@ == spec_mesh_indices_with(
            settings,
            voxels@,
            spec_neighbor_views(*neighbors),
            dims,
            lod,
        ),
        m.normals@ == spec_flat_normals(m.vertices@, m.indices@),
        m.aabb == spec_aabb_upto(m.vertices@, m.vertices@.len() as nat),
        m.vertices@.len() == m.colors@.len(),
        m.indices@.len() % 6 == 0,
        forall|j: int|
            0 <= j < m.indices@.len() ==> ((#[trigger] m.indices@[j]) as int) < m.vertices@.len(),
{
    let ew32 = dims.width >> lod;
    let eh32 = dims.height >> lod;
    let ed32 = dims.depth >> lod;
    proof {
        lemma_u32_shr_is_div(dims.width, lod);
        lemma_u32_shr_is_div(dims.height, lod);
        lemma_u32_shr_is_div(dims.depth, lod);
        lemma_pow2_pos(lod as nat);
        vstd::arithmetic::div_mod::lemma_div_nonincreasing(
            dims.width as int,
            pow2(lod as nat) as int,
        );
        vstd::arithmetic::div_mod::lemma_div_nonincreasing(
            dims.height as int,
            pow2(lod as nat) as int,
        );
        vstd::arithmetic::div_mod::lemma_div_nonincreasing(
            dims.depth as int,
            pow2(lod as nat) as int,
        );
        assert((ew32 as int) * (eh32 as int) <= 0x1000000 && (ew32 as int) * (eh32 as int) * (
        ed32 as int) <= 0x10000000) by (nonlinear_arith)
            requires
                0 <= ew32 <= dims.width,
                0 <= eh32 <= dims.height,
                0 <= ed32 <= dims.depth,
                dims.width <= 4096,
                dims.height <= 4096,
                dims.depth <= 4096,
                (dims.width as int) * (dims.height as int) * (dims.depth as int) <= 0x10000000,
                dims.wf(),
        {}
    }
    let ew = ew32 as usize;
    let eh = eh32 as usize;
    let ed = ed32 as usize;
    let layer = ew * eh;
    let evol = layer * ed;
    let mut vertices: Vec<Vec3i> = Vec::new();
    let mut colors: Vec<VoxelColor> = Vec::new();
    let mut indices: Vec<u32> = Vec::new();
    let mut solid_cells: usize = 0;
    let mut i: usize = 0;
    while i < evol
        invariant
            mesh_input_valid(voxels@, dims, lod),
            neighbors_wf(spec_neighbor_views(*neighbors), dims),
            ew == spec_effective_dim(dims.width, lod),
            eh == spec_effective_dim(dims.height, lod),
            ed == spec_effective_dim(dims.depth, lod),
            ew <= dims.width && eh <= dims.height && ed <= dims.depth,
            layer == ew * eh,
            evol == layer * ed,
            evol <= 0x10000000,
            i <= evol,
            solid_cells == spec_solid_count_upto(voxels@, dims, ew as int, eh as int, i as nat),
            solid_cells <= i,
            vertices@.len() == 8 * solid_cells,
            colors@.len() == vertices@.len(),
            vertices@ == spec_mesh_vertices_upto(
                voxels@,
                dims,
                lod,
                ew as int,
                eh as int,
                i as nat,
            ),
            colors@ == spec_mesh_colors_upto(voxels@, dims, ew as int, eh as int, i as nat),
            indices@ == spec_mesh_indices_upto_with(
                settings,
                voxels@,
                spec_neighbor_views(*neighbors),
                dims,
                ew as int,
                eh as int,
                i as nat,
            ),
            forall|j: int|
                0 <= j < indices@.len() ==> ((#[trigger] indices@[j]) as int) < vertices@.len(),
            forall|k: int|
                0 <= k < vertices@.len() ==> {
                    let v = #[trigger] vertices@[k];
                    0 <= v.x <= 0x20000000 && 0 <= v.y <= 0x20000000 && 0 <= v.z <= 0x20000000
                },
        decreases evol - i,
    {
        proof {
            assert(ew > 0 && eh > 0 && ed > 0) by (nonlinear_arith)
                requires
                    (layer as int) == (ew as int) * (eh as int),
                    (evol as int) == (layer as int) * (ed as int),
                    0 <= i < evol,
                    ew >= 0,
                    eh >= 0,
                    ed >= 0,
            {}
        }
        let x = i % ew;
        let y = (i / ew) % eh;
        let z = i / layer;
        proof {
            vstd::arithmetic::div_mod::lemma_mod_bound(i as int, ew as int);
            vstd::arithmetic::div_mod::lemma_mod_bound((i as int) / (ew as int), eh as int);
            vstd::arithmetic::div_mod::lemma_div_pos_is_pos(i as int, ew as int);
            vstd::arithmetic::div_mod::lemma_div_pos_is_pos(i as int, layer as int);
            assert((i as int) / ((ew as int) * (eh as int)) < ed) by (nonlinear_arith)
                requires
                    0 <= i < evol,
                    (evol as int) == (ew as int) * (eh as int) * (ed as int),
                    (layer as int) == (ew as int) * (eh as int),
                    ew > 0,
                    eh > 0,
                    ed > 0,
            {}
            assert(z == spec_cell_z(i as int, ew as int, eh as int));
            lemma_index_in_volume(dims, x as int, y as int, z as int);
        }
        let w = dims.width as usize;
        let h = dims.height as usize;
        proof {
            let dd = dims.depth as int;
            assert((y as int) * (w as int) < (w as int) * (h as int) * dd && (z as int) * (w as int)
                < (w as int) * (h as int) * dd && (z as int) * (w as int) * (h as int) < (w as int)
                * (h as int) * dd && (x as int) + (y as int) * (w as int) + (z as int) * (w as int)
                * (h as int) < (w as int) * (h as int) * dd) by (nonlinear_arith)
                requires
                    0 <= x < w,
                    0 <= y < h,
                    0 <= z < dd,
                    w > 0,
                    h > 0,
                    dd > 0,
            {}
            assert((w as int) * (h as int) * dd <= 0x10000000);
        }
        let index = x + y * w + z * w * h;
        let voxel = voxels[index];
        if voxel.is_solid() {
            let s = scaled_size(voxel.size, lod);
            let base = vertices.len() as u32;
            push_cell_indices_with(
                &mut indices,
                voxels,
                neighbors,
                dims,
                settings,
                x as u32,
                y as u32,
                z as u32,
                base,
            );
            proof {
                assert(0 <= (x as int) * (s as int) && (x as int) * (s as int) + s <= 0x20000000
                    && 0 <= (y as int) * (s as int) && (y as int) * (s as int) + s <= 0x20000000
                    && 0 <= (z as int) * (s as int) && (z as int) * (s as int) + s <= 0x20000000)
                    by (nonlinear_arith)
                    requires
                        0 <= x <= 4096,
                        0 <= y <= 4096,
                        0 <= z <= 4096,
                        0 <= s <= 4112,
                {}
            }
            let cell = voxel.mesh((x as i64) * s, (y as i64) * s, (z as i64) * s, s);
            let mut cell_vertices = cell.vertices;
            let mut cell_colors = cell.colors;
            vertices.append(&mut cell_vertices);
            colors.append(&mut cell_colors);
            solid_cells = solid_cells + 1;
        }
        i = i + 1;
        proof {
            assert(spec_cell_voxel(voxels@, dims, ew as int, eh as int, i - 1) == voxel);
            assert(vertices@ == spec_mesh_vertices_upto(
                voxels@,
                dims,
                lod,
                ew as int,
                eh as int,
                i as nat,
            ));
            assert(colors@ == spec_mesh_colors_upto(voxels@, dims, ew as int, eh as int, i as nat));
            assert(indices@ == spec_mesh_indices_upto_with(
                settings,
                voxels@,
                spec_neighbor_views(*neighbors),
                dims,
                ew as int,
                eh as int,
                i as nat,
            ));
        }
    }
    proof {
        lemma_mesh_indices_whole_faces_with(
            settings,
            voxels@,
            spec_neighbor_views(*neighbors),
            dims,
            ew as int,
            eh as int,
            evol as nat,
        );
    }
    let normals = compute_flat_normals(&vertices, &indices);
    let aabb = compute_aabb(&vertices);
    MeshData { vertices, colors, indices, normals, aabb }
}

} // verus!
