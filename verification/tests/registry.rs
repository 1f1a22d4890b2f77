use voxel_stream::chunk::Chunk;
use voxel_stream::coords::Coordinates;
use voxel_stream::registry::{ChunkRegistry, CHUNK_SIZE};

#[test]
fn test_domain() {
    assert_eq!(
        ChunkRegistry::domain_to_id(Coordinates::new(0, 0, 0)),
        ChunkRegistry::domain_to_id(Coordinates::new(1, 0, 7))
    );

    assert_ne!(
        ChunkRegistry::domain_to_id(Coordinates::new(17, 0, 15)),
        ChunkRegistry::domain_to_id(Coordinates::new(15, 0, 15))
    );
}

#[test]
fn domain_constant_within_chunk_extent() {
    let base = ChunkRegistry::domain_to_id(Coordinates::new(32, 16, 48));
    for dx in 0..16 {
        for dz in 0..16 {
            let id = ChunkRegistry::domain_to_id(Coordinates::new(32 + dx, 16, 48 + dz));
            assert_eq!(id, base);
        }
    }
}

#[test]
fn linearization_roundtrip_yields_chunk_origin() {
    let cases = [
        (0, 0, 0, 0, 0, 0),
        (1, 0, 7, 0, 0, 0),
        (17, 5, 15, 16, 0, 0),
        (15, 31, 100, 0, 16, 96),
        (-1, -1, -1, -16, -16, -16),
        (-16, -17, 20, -16, -32, 16),
        (357871, 0, -357856, 357856, 0, -357856),
    ];
    for (x, y, z, ox, oy, oz) in cases {
        let id = ChunkRegistry::domain_to_id(Coordinates::new(x, y, z));
        let origin = ChunkRegistry::id_to_domain(id);
        assert_eq!((origin.x, origin.y, origin.z), (ox, oy, oz));
        assert_eq!(ChunkRegistry::domain_to_id(origin), id);
    }
}

#[test]
fn chunk_center_is_origin_plus_half_size() {
    let center = ChunkRegistry::get_chunk_center(Coordinates::new(3, 18, -5));
    assert_eq!((center.x, center.y, center.z), (8, 24, -8));
}

#[test]
fn registry_insert_if_absent_keeps_first_chunk() {
    let mut registry = ChunkRegistry::new();
    let coords = Coordinates::new(0, 0, 0);
    let mut first = Chunk::new(16, 16, 16, coords);
    first.set_lod(3);
    registry.push_chunk_at(coords, first);
    // Any coordinate of the same chunk extent maps to the same entry, and a
    // second insert must not replace it.
    let second = Chunk::new(16, 16, 16, coords);
    registry.push_chunk_at(Coordinates::new(1, 0, 7), second);
    assert_eq!(registry.chunk_count(), 1);
    let stored = registry.get_chunk_at(Coordinates::new(15, 15, 15)).unwrap();
    assert_eq!(stored.get_lod(), 3);
}

#[test]
fn registry_take_and_put_round_trip() {
    let mut registry = ChunkRegistry::new();
    let coords = Coordinates::new(160, 0, -32);
    registry.push_chunk_at(coords, Chunk::new(16, 16, 16, coords));
    let taken = registry.take_chunk_at(coords).unwrap();
    assert_eq!(registry.chunk_count(), 0);
    registry.put_chunk_at(coords, taken);
    assert_eq!(registry.chunk_count(), 1);
    assert!(registry.get_chunk_at(coords).is_some());
    assert!(registry.get_chunk_at(Coordinates::new(0, 0, 0)).is_none());
}

#[test]
fn adjacent_chunks_found_by_face_offsets() {
    let mut registry = ChunkRegistry::new();
    let home = Coordinates::new(0, 0, 0);
    let east = Coordinates::new(CHUNK_SIZE, 0, 0);
    let below = Coordinates::new(0, -CHUNK_SIZE, 0);
    registry.push_chunk_at(east, Chunk::new(16, 16, 16, east));
    registry.push_chunk_at(below, Chunk::new(16, 16, 16, below));
    registry.push_chunk_at(home, Chunk::new(16, 16, 16, home));
    let neighbors = registry.get_adjacent_chunks(home);
    // Order: +x, -x, +z, -z, +y, -y; each slot is the lookup one chunk
    // extent along its axis, so it returns that chunk, not a copy of home's.
    assert_eq!(neighbors[0].unwrap().world_position, east);
    assert!(neighbors[1].is_none());
    assert!(neighbors[2].is_none());
    assert!(neighbors[3].is_none());
    assert!(neighbors[4].is_none());
    assert_eq!(neighbors[5].unwrap().world_position, below);
}
