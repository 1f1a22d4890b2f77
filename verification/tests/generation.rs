use voxel_stream::chunk::ChunkDimensions;
use voxel_stream::coords::Coordinates;
use voxel_stream::fixed::FP_ONE;
use voxel_stream::generation::{generate_voxels, GenerationSettings};
use voxel_stream::mesh::{mesh, MeshSettings};

fn settings() -> GenerationSettings {
    GenerationSettings {
        frequency_scale: FP_ONE * 3 / 100,
        amplitude_scale: 20 * FP_ONE,
        threshold: 2 * FP_ONE / 5,
        octaves: 2,
        persistence: FP_ONE / 2,
    }
}

fn dims(width: u32, height: u32, depth: u32) -> ChunkDimensions {
    ChunkDimensions { width, height, depth }
}

/// A pseudo-random but fully deterministic sample buffer within the noise
/// range, octave-major.
fn varied_samples(octaves: u32, volume: usize) -> Vec<i64> {
    let mut samples = Vec::new();
    let mut state: i64 = 12345;
    for _ in 0..(octaves as usize * volume) {
        state = (state * 1103515245 + 12345) % 65537;
        samples.push(state - 32768);
    }
    samples
}

#[test]
fn generation_is_deterministic() {
    let s = settings();
    let d = dims(8, 8, 8);
    let offset = Coordinates::new(32, -16, 128);
    let samples = varied_samples(s.octaves, 512);
    let first = generate_voxels(&s, offset, d, &samples);
    let second = generate_voxels(&s, offset, d, &samples);
    assert_eq!(first.len(), 512);
    assert_eq!(first, second);
}

#[test]
fn generation_differs_with_offset() {
    let s = settings();
    let d = dims(4, 4, 4);
    let samples = varied_samples(s.octaves, 64);
    let low = generate_voxels(&s, Coordinates::new(0, 0, 0), d, &samples);
    let high = generate_voxels(&s, Coordinates::new(0, 3200, 0), d, &samples);
    // The height tint depends on the world offset, so solid voxels of the two
    // buffers differ in color somewhere (the sample field makes some solid).
    let mut any_solid = false;
    let mut any_diff = false;
    for (a, b) in low.iter().zip(high.iter()) {
        if a.is_solid {
            any_solid = true;
            if a.color != b.color {
                any_diff = true;
            }
        }
    }
    assert!(any_solid);
    assert!(any_diff);
}

#[test]
fn constant_field_above_threshold_fills_chunk_solid() {
    // A noise field that is constant and above the threshold everywhere must
    // make all 64 voxels of a 4x4x4 chunk solid.
    let s = GenerationSettings {
        frequency_scale: FP_ONE * 3 / 100,
        amplitude_scale: 20 * FP_ONE,
        threshold: 2 * FP_ONE / 5,
        octaves: 1,
        persistence: FP_ONE / 2,
    };
    let d = dims(4, 4, 4);
    let samples = vec![FP_ONE; 64];
    let voxels = generate_voxels(&s, Coordinates::new(0, 0, 0), d, &samples);
    assert_eq!(voxels.len(), 64);
    assert!(voxels.iter().all(|v| v.is_solid));

    // Meshing the solid block with occlusion culling and no neighbors must
    // leave exactly the boundary faces of the cube: 6 sides of 4x4 cells,
    // 96 faces, 6 indices each; every cell still emits its 8 corners.
    let m = mesh(&voxels, 0, MeshSettings { occlusion_culling: true }, d);
    assert_eq!(m.vertices.len(), 64 * 8);
    assert_eq!(m.colors.len(), 64 * 8);
    assert_eq!(m.indices.len(), 96 * 6);
    assert_eq!(m.normals.len(), 96 * 2);
}

#[test]
fn flat_field_below_threshold_stays_empty() {
    let s = GenerationSettings {
        frequency_scale: FP_ONE * 3 / 100,
        amplitude_scale: 20 * FP_ONE,
        threshold: 5 * FP_ONE,
        octaves: 2,
        persistence: FP_ONE / 2,
    };
    let d = dims(4, 4, 4);
    let samples = vec![0i64; 128];
    let voxels = generate_voxels(&s, Coordinates::new(0, 0, 0), d, &samples);
    assert!(voxels.iter().all(|v| !v.is_solid));
    assert!(voxels.iter().all(|v| v.size == FP_ONE));
}

#[test]
fn solid_voxel_color_is_tinted_and_opaque() {
    let s = GenerationSettings {
        frequency_scale: 0,
        amplitude_scale: 20 * FP_ONE,
        threshold: 0,
        octaves: 1,
        persistence: FP_ONE,
    };
    let d = dims(2, 2, 2);
    let samples = vec![FP_ONE; 8];
    let voxels = generate_voxels(&s, Coordinates::new(0, 0, 0), d, &samples);
    for v in &voxels {
        assert!(v.is_solid);
        // With zero frequency the height tint is flat, and the saturated heat
        // pushes the channel curve to its extremes: a full channel maps to
        // one unit, an empty channel to the darkening offset 0.3.
        let full = FP_ONE;
        let dark = (FP_ONE * 3) / 10;
        assert_eq!(v.color.a, 2 * FP_ONE);
        assert_eq!(v.color.r, full + dark);
        assert_eq!(v.color.g, dark + full);
        assert_eq!(v.color.b, dark + dark);
    }
}
