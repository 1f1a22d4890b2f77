use voxel_stream::chunk::{ChunkDimensions, VoxelFace};
use voxel_stream::fixed::FP_ONE;
use voxel_stream::mesh::{get_voxel_face, mesh, mesh_with_neighbors, MeshSettings};
use voxel_stream::voxel::{Voxel, VoxelColor};

fn dims(width: u32, height: u32, depth: u32) -> ChunkDimensions {
    ChunkDimensions { width, height, depth }
}

fn solid() -> Voxel {
    Voxel::new_solid(VoxelColor { r: FP_ONE, g: 0, b: 0, a: FP_ONE }, FP_ONE)
}

fn buffer(d: ChunkDimensions, solid_at: impl Fn(u32, u32, u32) -> bool) -> Vec<Voxel> {
    let mut voxels = vec![Voxel::default(); (d.width * d.height * d.depth) as usize];
    for z in 0..d.depth {
        for y in 0..d.height {
            for x in 0..d.width {
                if solid_at(x, y, z) {
                    let index = (x + y * d.width + z * d.width * d.height) as usize;
                    voxels[index] = solid();
                }
            }
        }
    }
    voxels
}

#[test]
fn meshing_is_deterministic_and_idempotent() {
    let d = dims(4, 4, 4);
    let voxels = buffer(d, |x, y, z| (x + y + z) % 2 == 0);
    let on = MeshSettings { occlusion_culling: true };
    let first = mesh(&voxels, 0, on, d);
    let second = mesh(&voxels, 0, on, d);
    assert_eq!(first.vertices.len(), second.vertices.len());
    assert_eq!(first.indices.len(), second.indices.len());
    assert_eq!(first.vertices, second.vertices);
    assert_eq!(first.colors, second.colors);
    assert_eq!(first.indices, second.indices);
    assert_eq!(first.normals, second.normals);
    assert_eq!(first.aabb, second.aabb);
}

#[test]
fn interior_voxel_contributes_no_faces_when_culling() {
    // A 3x3x3 solid block: the center voxel has all six neighbors solid.
    let d = dims(3, 3, 3);
    let voxels = buffer(d, |_, _, _| true);
    let culled = mesh(&voxels, 0, MeshSettings { occlusion_culling: true }, d);
    // Only the 54 boundary faces survive: the center contributes none.
    assert_eq!(culled.indices.len(), 54 * 6);
    let unculled = mesh(&voxels, 0, MeshSettings { occlusion_culling: false }, d);
    // Without culling every voxel contributes all 6 faces, 12 triangles.
    assert_eq!(unculled.indices.len(), 27 * 36);
    assert_eq!(unculled.indices.len() - culled.indices.len(), (27 * 6 - 54) * 6);
}

#[test]
fn single_voxel_yields_twelve_triangles() {
    let d = dims(1, 1, 1);
    let voxels = vec![solid()];
    let m = mesh(&voxels, 0, MeshSettings { occlusion_culling: true }, d);
    // No neighbors exist, so culling removes nothing: 6 faces, 12 triangles.
    assert_eq!(m.vertices.len(), 8);
    assert_eq!(m.indices.len(), 36);
    assert_eq!(m.normals.len(), 12);
    let aabb = m.aabb.unwrap();
    assert_eq!((aabb.min.x, aabb.min.y, aabb.min.z), (0, 0, 0));
    assert_eq!((aabb.max.x, aabb.max.y, aabb.max.z), (1, 1, 1));
    // Indices come in whole triangles and point into the vertex buffer.
    for &i in m.indices.iter() {
        assert!((i as usize) < m.vertices.len());
    }
}

#[test]
fn empty_buffer_yields_empty_mesh() {
    let d = dims(2, 2, 2);
    let voxels = buffer(d, |_, _, _| false);
    let m = mesh(&voxels, 0, MeshSettings { occlusion_culling: true }, d);
    assert!(m.vertices.is_empty());
    assert!(m.indices.is_empty());
    assert!(m.normals.is_empty());
    assert!(m.aabb.is_none());
}

#[test]
fn lod_downsamples_and_scales() {
    // An 8x8x8 fully solid chunk at one level of detail: the effective grid
    // is 4x4x4 and each cell is scaled by 1 + lod^2 = 2.
    let d = dims(8, 8, 8);
    let voxels = buffer(d, |_, _, _| true);
    let m = mesh(&voxels, 1, MeshSettings { occlusion_culling: true }, d);
    assert_eq!(m.vertices.len(), 64 * 8);
    let aabb = m.aabb.unwrap();
    assert_eq!((aabb.min.x, aabb.min.y, aabb.min.z), (0, 0, 0));
    assert_eq!((aabb.max.x, aabb.max.y, aabb.max.z), (8, 8, 8));
}

#[test]
fn voxel_face_lookup_respects_bounds_and_solidity() {
    let d = dims(2, 1, 1);
    let mut voxels = vec![Voxel::default(); 2];
    voxels[1] = solid();
    // The right neighbor of (0,0,0) is (1,0,0), which is solid.
    assert!(get_voxel_face(&voxels, d, 0, 0, 0, VoxelFace::Right).is_some());
    // The left neighbor of (0,0,0) is outside the buffer.
    assert!(get_voxel_face(&voxels, d, 0, 0, 0, VoxelFace::Left).is_none());
    // The left neighbor of (1,0,0) is (0,0,0), which is empty.
    assert!(get_voxel_face(&voxels, d, 1, 0, 0, VoxelFace::Left).is_none());
    assert!(get_voxel_face(&voxels, d, 1, 0, 0, VoxelFace::Up).is_none());
}

#[test]
fn cube_corners_and_normals_are_exact() {
    let d = dims(1, 1, 1);
    let voxels = vec![solid()];
    let m = mesh(&voxels, 0, MeshSettings { occlusion_culling: false }, d);
    let expected = [
        (0, 0, 0),
        (1, 0, 0),
        (1, 1, 0),
        (0, 1, 0),
        (0, 0, 1),
        (1, 0, 1),
        (1, 1, 1),
        (0, 1, 1),
    ];
    for (v, e) in m.vertices.iter().zip(expected.iter()) {
        assert_eq!((v.x, v.y, v.z), *e);
    }
    // Every flat normal of an axis-aligned cube is axis-aligned.
    for n in m.normals.iter() {
        let nonzero = [n.x, n.y, n.z].iter().filter(|c| **c != 0).count();
        assert_eq!(nonzero, 1);
    }
    // First face template (the back face): 0,2,1 0,3,2.
    assert_eq!(&m.indices[0..6], &[0, 2, 1, 0, 3, 2]);
}

#[test]
fn boundary_culling_consults_the_adjacent_buffers() {
    let d = dims(2, 2, 2);
    let block = buffer(d, |_, _, _| true);
    let empty = buffer(d, |_, _, _| false);
    let on = MeshSettings { occlusion_culling: true };

    // Empty buffers on all six sides: every boundary face stays, exactly as
    // in the single-buffer build.
    let open_neighbors = [
        Some(&empty), Some(&empty), Some(&empty), Some(&empty), Some(&empty), Some(&empty),
    ];
    let surrounded_by_air = mesh_with_neighbors(&block, &open_neighbors, 0, on, d);
    let alone = mesh(&block, 0, on, d);
    assert_eq!(surrounded_by_air.indices, alone.indices);
    assert_eq!(surrounded_by_air.indices.len(), 24 * 6);
    assert_eq!(surrounded_by_air.vertices, alone.vertices);

    // A fully solid +x neighbor hides exactly the four faces on that side.
    let wall = buffer(d, |_, _, _| true);
    let walled_east = [
        Some(&wall), Some(&empty), Some(&empty), Some(&empty), Some(&empty), Some(&empty),
    ];
    let m = mesh_with_neighbors(&block, &walled_east, 0, on, d);
    assert_eq!(m.indices.len(), 20 * 6);

    // A partially solid neighbor hides only the faces whose wrapped cell is
    // solid: one solid cell at the neighbor's (0, 0, 0) hides the one face of
    // this chunk's (1, 0, 0) looking into it.
    let corner = buffer(d, |x, y, z| x == 0 && y == 0 && z == 0);
    let cornered_east = [
        Some(&corner), Some(&empty), Some(&empty), Some(&empty), Some(&empty), Some(&empty),
    ];
    let m = mesh_with_neighbors(&block, &cornered_east, 0, on, d);
    assert_eq!(m.indices.len(), 23 * 6);

    // No neighbors at all: the world edge counts as solid on every side, so
    // a fully solid chunk is completely enclosed and draws nothing.
    let world_edge = [None, None, None, None, None, None];
    let m = mesh_with_neighbors(&block, &world_edge, 0, on, d);
    assert_eq!(m.indices.len(), 0);
    assert_eq!(m.vertices.len(), 8 * 8);

    // With culling off the neighbors are irrelevant.
    let off = MeshSettings { occlusion_culling: false };
    let m = mesh_with_neighbors(&block, &world_edge, 0, off, d);
    assert_eq!(m.indices.len(), 8 * 36);
}

#[test]
fn cross_chunk_interior_voxel_draws_nothing() {
    // A single solid voxel whose six neighbors are all solid cells of the
    // adjacent chunks contributes zero triangles with culling on and twelve
    // with it off, exactly like an in-chunk interior voxel.
    let d = dims(1, 1, 1);
    let voxels = vec![solid()];
    let wall = vec![solid()];
    let neighbors = [
        Some(&wall), Some(&wall), Some(&wall), Some(&wall), Some(&wall), Some(&wall),
    ];
    let culled = mesh_with_neighbors(&voxels, &neighbors, 0, MeshSettings {
        occlusion_culling: true,
    }, d);
    assert_eq!(culled.indices.len(), 0);
    assert_eq!(culled.normals.len(), 0);
    let unculled = mesh_with_neighbors(&voxels, &neighbors, 0, MeshSettings {
        occlusion_culling: false,
    }, d);
    assert_eq!(unculled.indices.len(), 36);
    assert_eq!(unculled.normals.len(), 12);
}
