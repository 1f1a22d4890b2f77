use voxel_stream::coords::Coordinates;
use voxel_stream::fixed::FP_ONE;
use voxel_stream::frustum::{
    create_frustum_points, get_frustum_point_amount, is_in_frustum, is_in_frustum_batch,
    is_in_frustum_batch_unsized, HalfSpace,
};
use voxel_stream::mesh::Vec3i;

/// An axis-aligned box frustum: x, y, z each within [-100, 100].
fn box_frustum() -> [HalfSpace; 6] {
    let d = 100 * FP_ONE;
    [
        HalfSpace { normal: Vec3i { x: FP_ONE, y: 0, z: 0 }, d },
        HalfSpace { normal: Vec3i { x: -FP_ONE, y: 0, z: 0 }, d },
        HalfSpace { normal: Vec3i { x: 0, y: FP_ONE, z: 0 }, d },
        HalfSpace { normal: Vec3i { x: 0, y: -FP_ONE, z: 0 }, d },
        HalfSpace { normal: Vec3i { x: 0, y: 0, z: FP_ONE }, d },
        HalfSpace { normal: Vec3i { x: 0, y: 0, z: -FP_ONE }, d },
    ]
}

#[test]
fn points_inside_and_outside_the_frustum() {
    let spaces = box_frustum();
    assert!(is_in_frustum(Vec3i { x: 0, y: 0, z: 0 }, &spaces, 0));
    assert!(is_in_frustum(Vec3i { x: 100, y: -100, z: 50 }, &spaces, 0));
    assert!(!is_in_frustum(Vec3i { x: 101, y: 0, z: 0 }, &spaces, 0));
    assert!(!is_in_frustum(Vec3i { x: 0, y: 0, z: -101 }, &spaces, 0));
}

#[test]
fn margin_expands_the_frustum() {
    let spaces = box_frustum();
    let point = Vec3i { x: 102, y: 0, z: 0 };
    assert!(!is_in_frustum(point, &spaces, 0));
    // Two voxels of margin pull the point back inside.
    assert!(is_in_frustum(point, &spaces, 2 * FP_ONE));
}

#[test]
fn batch_results_follow_the_points() {
    let spaces = box_frustum();
    let points = vec![
        Vec3i { x: 0, y: 0, z: 0 },
        Vec3i { x: 200, y: 0, z: 0 },
        Vec3i { x: -100, y: 100, z: 100 },
    ];
    let results = is_in_frustum_batch(&points, &spaces, 0);
    assert_eq!(results, vec![true, false, true]);
}

#[test]
fn chunk_bounding_points_cover_the_expanded_box() {
    assert_eq!(get_frustum_point_amount(), 6);
    let points = create_frustum_points(Coordinates::new(10, 20, 30), Coordinates::new(16, 16, 16));
    assert_eq!(points.len(), 6);
    assert_eq!(points[0], Vec3i { x: 10 - 17, y: 20 - 17, z: 30 - 17 });
    assert_eq!(points[1], Vec3i { x: 10 + 17, y: 20 + 17, z: 30 + 17 });
    assert_eq!(points[5], Vec3i { x: 10, y: 20, z: 30 });

    // A chunk straddling the frustum edge still counts as visible through at
    // least one bounding point.
    let spaces = box_frustum();
    let edge = create_frustum_points(Coordinates::new(110, 0, 0), Coordinates::new(16, 16, 16));
    let results = is_in_frustum_batch_unsized(&edge, &spaces, 0);
    assert!(results.iter().any(|v| *v));
    assert!(!results.iter().all(|v| *v));
}
