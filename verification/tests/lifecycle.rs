use voxel_stream::chunk::{Chunk, ChunkFlags, ChunkFlagSet};
use voxel_stream::coords::Coordinates;
use voxel_stream::discovery::{ActionQueue, BusyLocations, process_discovery};
use voxel_stream::fixed::FP_ONE;
use voxel_stream::lifecycle::{
    apply_draw_result, apply_generation_result, apply_mesh_result, create_chunk, decide_action,
    unload_chunk, ChunkActionKind,
};
use voxel_stream::registry::ChunkRegistry;
use voxel_stream::voxel::Voxel;

fn flags(generated: bool, dirty: bool, drawn: bool, busy: bool, meshed: bool) -> ChunkFlagSet {
    ChunkFlagSet { generated, dirty, drawn, busy, meshed }
}

#[test]
fn pipeline_reaches_steady_state_in_order() {
    let mut registry = ChunkRegistry::new();
    let coords = Coordinates::new(32, 0, -48);
    let mut busy = BusyLocations::new();
    let mut queue = ActionQueue::new();

    // Absent chunk: the pass emits Create.
    process_discovery(&mut registry, &mut busy, &vec![coords], &mut queue);
    let actions = queue.drain(24);
    assert_eq!(actions.len(), 1);
    assert_eq!(actions[0].kind, ChunkActionKind::Create);

    create_chunk(&mut registry, coords);
    let fresh = registry.get_chunk_at(coords).unwrap();
    assert_eq!(fresh.get_flags(), flags(false, false, false, false, false));

    // Fresh chunk: Generate, and the chunk goes Busy at emission.
    process_discovery(&mut registry, &mut busy, &vec![coords], &mut queue);
    let actions = queue.drain(24);
    assert_eq!(actions[0].kind, ChunkActionKind::Generate);
    assert!(registry.get_chunk_at(coords).unwrap().is_busy());

    // While Busy (and remembered), a second pass emits nothing.
    process_discovery(&mut registry, &mut busy, &vec![coords], &mut queue);
    assert_eq!(queue.len(), 0);
    busy.clear();
    process_discovery(&mut registry, &mut busy, &vec![coords], &mut queue);
    assert_eq!(queue.len(), 0);

    // Apply the generation result: Generated and Dirty, Busy cleared.
    let volume = 16 * 16 * 16;
    let voxels = vec![Voxel::default(); volume];
    assert!(apply_generation_result(&mut registry, coords, voxels));
    let generated = registry.get_chunk_at(coords).unwrap().get_flags();
    assert_eq!(generated, flags(true, true, false, false, false));

    // Dirty chunk: Mesh next.
    busy.clear();
    process_discovery(&mut registry, &mut busy, &vec![coords], &mut queue);
    let actions = queue.drain(24);
    assert_eq!(actions[0].kind, ChunkActionKind::Mesh);

    // Apply the meshing result: Meshed, Dirty false immediately after.
    assert!(apply_mesh_result(&mut registry, coords, 7));
    let meshed = registry.get_chunk_at(coords).unwrap();
    assert_eq!(meshed.get_flags(), flags(true, false, false, false, true));
    assert_eq!(meshed.get_mesh(), Some(7));

    // Meshed and not Drawn: Draw next.
    busy.clear();
    process_discovery(&mut registry, &mut busy, &vec![coords], &mut queue);
    let actions = queue.drain(24);
    assert_eq!(actions[0].kind, ChunkActionKind::Draw);

    assert!(apply_draw_result(&mut registry, coords, 99));
    let drawn = registry.get_chunk_at(coords).unwrap();
    assert_eq!(drawn.get_flags(), flags(true, false, true, false, true));
    assert_eq!(drawn.get_entity(), Some(99));

    // Steady state: nothing more to do.
    busy.clear();
    process_discovery(&mut registry, &mut busy, &vec![coords], &mut queue);
    assert_eq!(queue.len(), 0);

    // Out of range: hidden and free, data kept.
    assert!(unload_chunk(&mut registry, coords));
    let unloaded = registry.get_chunk_at(coords).unwrap();
    assert_eq!(unloaded.get_flags(), flags(true, false, false, false, true));
    assert!(unloaded.get_mesh().is_some());
}

#[test]
fn draw_emitted_once_until_drawn() {
    // A chunk flagged Meshed and not Drawn yields exactly one Draw action per
    // pass until it becomes Drawn, never more than one concurrently.
    let mut registry = ChunkRegistry::new();
    let coords = Coordinates::new(0, 0, 0);
    create_chunk(&mut registry, coords);
    let mut chunk = registry.take_chunk_at(coords).unwrap();
    chunk.set_generated(true);
    chunk.set_mesh(11);
    registry.put_chunk_at(coords, chunk);

    let mut busy = BusyLocations::new();
    let mut queue = ActionQueue::new();
    // One pass over many duplicate sightings of the coordinate still emits a
    // single Draw: the first emission marks the chunk Busy.
    process_discovery(&mut registry, &mut busy, &vec![coords, coords, coords], &mut queue);
    let actions = queue.drain(24);
    assert_eq!(actions.len(), 1);
    assert_eq!(actions[0].kind, ChunkActionKind::Draw);

    // Another pass while the draw is in flight emits nothing.
    busy.clear();
    process_discovery(&mut registry, &mut busy, &vec![coords], &mut queue);
    assert_eq!(queue.len(), 0);

    // Once drawn, the chunk is steady.
    assert!(apply_draw_result(&mut registry, coords, 5));
    busy.clear();
    process_discovery(&mut registry, &mut busy, &vec![coords], &mut queue);
    assert_eq!(queue.len(), 0);
}

#[test]
fn decide_action_follows_flag_rules() {
    assert_eq!(decide_action(flags(false, false, false, false, false)),
        Some(ChunkActionKind::Generate));
    assert_eq!(decide_action(flags(false, false, false, true, false)), None);
    assert_eq!(decide_action(flags(true, true, false, false, false)),
        Some(ChunkActionKind::Mesh));
    assert_eq!(decide_action(flags(true, false, false, false, true)),
        Some(ChunkActionKind::Draw));
    assert_eq!(decide_action(flags(true, true, false, false, true)),
        Some(ChunkActionKind::Draw));
    assert_eq!(decide_action(flags(true, false, true, false, true)), None);
    assert_eq!(decide_action(flags(true, true, true, false, true)),
        Some(ChunkActionKind::Mesh));
}

#[test]
fn results_for_missing_chunks_are_refused() {
    let mut registry = ChunkRegistry::new();
    let coords = Coordinates::new(800, 0, 0);
    assert!(!apply_generation_result(&mut registry, coords, vec![Voxel::default(); 4096]));
    assert!(!apply_mesh_result(&mut registry, coords, 1));
    assert!(!apply_draw_result(&mut registry, coords, 1));
    assert!(!unload_chunk(&mut registry, coords));
    assert_eq!(registry.chunk_count(), 0);
}

#[test]
fn draw_without_mesh_is_refused() {
    let mut registry = ChunkRegistry::new();
    let coords = Coordinates::new(0, 0, 0);
    create_chunk(&mut registry, coords);
    assert!(!apply_draw_result(&mut registry, coords, 1));
    assert!(!registry.get_chunk_at(coords).unwrap().is_drawn());
}

#[test]
fn wrong_size_generation_result_frees_the_chunk() {
    let mut registry = ChunkRegistry::new();
    let coords = Coordinates::new(0, 0, 0);
    create_chunk(&mut registry, coords);
    let mut chunk = registry.take_chunk_at(coords).unwrap();
    chunk.set_busy(true);
    registry.put_chunk_at(coords, chunk);
    assert!(!apply_generation_result(&mut registry, coords, vec![Voxel::default(); 3]));
    let after = registry.get_chunk_at(coords).unwrap();
    assert!(!after.is_busy());
    assert!(!after.is_generated());
}

#[test]
fn flag_set_operations() {
    let mut chunk = Chunk::new(2, 2, 2, Coordinates::new(0, 0, 0));
    chunk.set_flag(ChunkFlags::Generated, true);
    chunk.set_flag(ChunkFlags::Dirty, true);
    assert!(chunk.is_generated() && chunk.is_dirty());
    assert!(!chunk.is_busy() && !chunk.is_drawn() && !chunk.is_meshed());
    // XOR mask toggles exactly the named flags.
    chunk.apply_mask(flags(false, true, true, false, false));
    assert!(chunk.is_generated() && !chunk.is_dirty() && chunk.is_drawn());
    let mut voxel_chunk = Chunk::new(2, 2, 2, Coordinates::new(0, 0, 0));
    voxel_chunk.set_voxel(1, 1, 1, Voxel::new_solid(
        voxel_stream::voxel::VoxelColor { r: 1, g: 2, b: 3, a: 4 }, FP_ONE));
    assert!(voxel_chunk.get_voxel(1, 1, 1).unwrap().is_solid());
    assert!(!voxel_chunk.get_voxel(0, 0, 0).unwrap().is_solid());
    assert!(voxel_chunk.get_voxel(2, 0, 0).is_none());
}
