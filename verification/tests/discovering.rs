use voxel_stream::chunk::Chunk;
use voxel_stream::coords::Coordinates;
use voxel_stream::discovery::{
    enumerate_discovery_coords, lod_for_distance, process_discovery, should_unload_chunk,
    ActionQueue, BusyLocations, DiscoverySettings, QUEUE_PROCESS_LIMIT,
};
use voxel_stream::discovery::discover_visible_coords;
use voxel_stream::fixed::FP_ONE;
use voxel_stream::frustum::HalfSpace;
use voxel_stream::lifecycle::{ChunkAction, ChunkActionKind};
use voxel_stream::mesh::Vec3i;
use voxel_stream::registry::ChunkRegistry;

#[test]
fn frustum_filter_keeps_only_visible_chunks() {
    // A box frustum of [-20, 20] on every axis; chunk bounding boxes are
    // expanded by one voxel, so chunks anchored within 37 voxels stay.
    let d = 20 * FP_ONE;
    let spaces = [
        HalfSpace { normal: Vec3i { x: FP_ONE, y: 0, z: 0 }, d },
        HalfSpace { normal: Vec3i { x: -FP_ONE, y: 0, z: 0 }, d },
        HalfSpace { normal: Vec3i { x: 0, y: FP_ONE, z: 0 }, d },
        HalfSpace { normal: Vec3i { x: 0, y: -FP_ONE, z: 0 }, d },
        HalfSpace { normal: Vec3i { x: 0, y: 0, z: FP_ONE }, d },
        HalfSpace { normal: Vec3i { x: 0, y: 0, z: -FP_ONE }, d },
    ];
    let center = Coordinates::new(0, 0, 0);
    let all = enumerate_discovery_coords(center, 3, 3);
    assert_eq!(all.len(), 343);
    let visible = discover_visible_coords(center, 3, 3, &spaces, 0);
    // The filtered list is exactly the enumeration with every chunk removed
    // whose six bounding points all fail the half-space test, in order.
    let expected: Vec<Coordinates> = all
        .iter()
        .copied()
        .filter(|c| {
            let points = voxel_stream::frustum::create_frustum_points(
                *c,
                Coordinates::new(16, 16, 16),
            );
            points.iter().any(|p| voxel_stream::frustum::is_in_frustum(*p, &spaces, 0))
        })
        .collect();
    assert_eq!(visible, expected);
    // The origin chunk is visible; the far corners are not.
    assert!(visible.contains(&Coordinates::new(0, 0, 0)));
    assert!(!visible.is_empty() && visible.len() < all.len());
    assert!(visible.iter().all(|c| c.x.abs() <= 32 && c.y.abs() <= 32 && c.z.abs() <= 32));
}

#[test]
fn enumeration_is_exactly_the_grid_box() {
    let center = Coordinates::new(2, -1, 0);
    let coords = enumerate_discovery_coords(center, 1, 1);
    assert_eq!(coords.len(), 27);
    // Exactly the grid points within the radii, each once.
    for dx in -1..=1 {
        for dy in -1..=1 {
            for dz in -1..=1 {
                let expected = Coordinates::new((2 + dx) * 16, (-1 + dy) * 16, dz * 16);
                assert_eq!(coords.iter().filter(|c| **c == expected).count(), 1);
            }
        }
    }
    // And nothing out of range: 27 hits in 27 entries leaves no room.
    let flat = enumerate_discovery_coords(center, 2, 0);
    assert_eq!(flat.len(), 25);
    assert!(flat.iter().all(|c| c.y == -16));
}

#[test]
fn busy_chunks_are_excluded_from_emission() {
    let mut registry = ChunkRegistry::new();
    let free = Coordinates::new(0, 0, 0);
    let occupied = Coordinates::new(16, 0, 0);
    let mut chunk = Chunk::new(16, 16, 16, free);
    chunk.set_generated(true);
    chunk.set_dirty(true);
    registry.push_chunk_at(free, chunk);
    let mut chunk = Chunk::new(16, 16, 16, occupied);
    chunk.set_busy(true);
    registry.push_chunk_at(occupied, chunk);

    let mut busy = BusyLocations::new();
    let mut queue = ActionQueue::new();
    process_discovery(&mut registry, &mut busy, &vec![free, occupied], &mut queue);
    let actions = queue.drain(QUEUE_PROCESS_LIMIT);
    assert_eq!(actions.len(), 1);
    assert_eq!(actions[0].coordinates, free);
    assert_eq!(actions[0].kind, ChunkActionKind::Mesh);
}

#[test]
fn recently_dispatched_coordinates_are_skipped() {
    let mut registry = ChunkRegistry::new();
    let coords = Coordinates::new(0, 0, 0);
    let mut busy = BusyLocations::new();
    busy.insert(coords);
    let mut queue = ActionQueue::new();
    // Even a missing chunk is not re-requested while its coordinate is in the
    // recently dispatched set; clearing the set re-enables it.
    process_discovery(&mut registry, &mut busy, &vec![coords], &mut queue);
    assert_eq!(queue.len(), 0);
    busy.clear();
    process_discovery(&mut registry, &mut busy, &vec![coords], &mut queue);
    assert_eq!(queue.len(), 1);
}

#[test]
fn queue_drains_a_bounded_batch_in_order() {
    let mut queue = ActionQueue::new();
    for i in 0..30 {
        queue.push(ChunkAction {
            kind: ChunkActionKind::Create,
            coordinates: Coordinates::new(i, 0, 0),
        });
    }
    let first = queue.drain(QUEUE_PROCESS_LIMIT);
    assert_eq!(first.len(), 24);
    assert_eq!(first[0].coordinates.x, 0);
    assert_eq!(first[23].coordinates.x, 23);
    // The excess waits for the next cycle instead of being dropped.
    assert_eq!(queue.len(), 6);
    let second = queue.drain(QUEUE_PROCESS_LIMIT);
    assert_eq!(second.len(), 6);
    assert_eq!(second[0].coordinates.x, 24);
    assert_eq!(queue.len(), 0);
}

#[test]
fn unload_depends_on_distance_and_visibility() {
    let settings = DiscoverySettings {
        discovery_radius: 2,
        discovery_radius_height: 1,
        lod: false,
    };
    let camera = Coordinates::new(8, 8, 8);
    // Within range and visible: stays.
    assert!(!should_unload_chunk(Coordinates::new(16, 0, 0), camera, &settings, true));
    // Beyond the horizontal radius by more than one chunk: goes.
    assert!(should_unload_chunk(Coordinates::new(16 * 4, 0, 0), camera, &settings, true));
    // Beyond the vertical radius: goes.
    assert!(should_unload_chunk(Coordinates::new(0, 16 * 3, 0), camera, &settings, true));
    // Out of view: goes, whatever the distance.
    assert!(should_unload_chunk(Coordinates::new(0, 0, 0), camera, &settings, false));
}

#[test]
fn lod_grows_with_the_smallest_axis_distance() {
    let camera = Coordinates::new(0, 0, 0);
    // Same chunk: full detail.
    assert_eq!(lod_for_distance(Coordinates::new(0, 0, 0), camera), 0);
    // One chunk away on every axis: 3 * 1 - 1.
    assert_eq!(lod_for_distance(Coordinates::new(16, 16, 16), camera), 2);
    // The nearest axis dominates: far in x, near in y and z.
    assert_eq!(lod_for_distance(Coordinates::new(160, 0, 0), camera), 0);
    // Far on every axis: clamped to the supported maximum.
    assert_eq!(
        lod_for_distance(Coordinates::new(160, 160, 160), camera),
        16
    );
}
