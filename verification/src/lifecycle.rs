//! The chunk lifecycle: which pipeline action a chunk needs next, and how a
//! completed action's result is applied to the chunk and its flags.
//!
//! The flag discipline is central: `Busy` is set when an action is emitted
//! and cleared exactly when its result is applied, so no coordinate ever has
//! two operations in flight; `Dirty` is set when voxel content changes and
//! cleared only when a mesh has been rebuilt from the current content.

use vstd::prelude::*;
use crate::chunk::{Chunk, ChunkFlagSet};
use crate::coords::Coordinates;
use crate::registry::{
    spec_domain_to_id, in_supported_range, ChunkRegistry, CHUNK_SIZE, CHUNK_HEIGHT,
};
use crate::voxel::Voxel;

verus! {

/// The unit of work a chunk needs next.
#[derive(Debug, Clone, Copy, PartialEq, Eq, Structural)]
pub enum ChunkActionKind {
    /// The coordinate has no chunk yet: create one.
    Create,
    /// The chunk has no generated content yet.
    Generate,
    /// The chunk's content is newer than its mesh.
    Mesh,
    /// The chunk has a mesh but is not shown yet.
    Draw,
}

/// An action bound to the coordinate it concerns.
#[derive(Debug, Clone, Copy, PartialEq, Eq, Structural)]
pub struct ChunkAction {
    pub kind: ChunkActionKind,
    pub coordinates: Coordinates,
}

/// The action a coordinate needs, from the flag state of its chunk (`None`
/// for a coordinate with no chunk yet):
/// a missing chunk is created; a `Busy` chunk is skipped; an ungenerated
/// chunk is generated; a meshed, undrawn chunk is drawn; a dirty chunk is
/// re-meshed; anything else is steady and needs nothing.
pub open spec fn spec_decide(flags: Option<ChunkFlagSet>) -> Option<ChunkActionKind> {
    match flags {
        None => Some(ChunkActionKind::Create),
        Some(f) => if f.busy {
            None
        } else if !f.generated {
            Some(ChunkActionKind::Generate)
        } else if f.meshed && !f.drawn {
            Some(ChunkActionKind::Draw)
        } else if f.dirty {
            Some(ChunkActionKind::Mesh)
        } else {
            None
        },
    }
}

/// Exec mirror of [`spec_decide`] for a present chunk.
pub fn decide_action(flags: ChunkFlagSet) -> (r: Option<ChunkActionKind>)
    ensures
        r == spec_decide(Some(flags)),
{
    if flags.busy {
        None
    } else if !flags.generated {
        Some(ChunkActionKind::Generate)
    } else if flags.meshed && !flags.drawn {
        Some(ChunkActionKind::Draw)
    } else if flags.dirty {
        Some(ChunkActionKind::Mesh)
    } else {
        None
    }
}

/// Flags after an action for this chunk is emitted: `Busy`, so the chunk is
/// skipped until the result lands.
pub open spec fn spec_emit_flags(f: ChunkFlagSet) -> ChunkFlagSet {
    ChunkFlagSet { busy: true, ..f }
}

/// Flags after a generation result is applied: content exists and is newer
/// than any mesh, and the chunk is free for the next stage.
pub open spec fn spec_apply_generation_flags(f: ChunkFlagSet) -> ChunkFlagSet {
    ChunkFlagSet { busy: false, dirty: true, generated: true, ..f }
}

/// Flags after a meshing result is applied: the mesh now reflects the
/// content, so `Dirty` is cleared with `Busy`.
pub open spec fn spec_apply_mesh_flags(f: ChunkFlagSet) -> ChunkFlagSet {
    ChunkFlagSet { busy: false, dirty: false, meshed: true, ..f }
}

/// Flags after a draw is applied: shown, and free.
pub open spec fn spec_apply_draw_flags(f: ChunkFlagSet) -> ChunkFlagSet {
    ChunkFlagSet { busy: false, drawn: true, ..f }
}

/// Flags after a chunk leaves the active radius: hidden and free, but its
/// data (and `Generated`/`Meshed`) kept for cheap re-entry.
pub open spec fn spec_unload_flags(f: ChunkFlagSet) -> ChunkFlagSet {
    ChunkFlagSet { busy: false, drawn: false, ..f }
}

/// The flag state machine, walked from the initial state: the pipeline
/// decides Create for a missing chunk, then Generate, then Mesh, then Draw,
/// then nothing; re-dirtying a steady chunk re-enters the Mesh -> Draw loop.
/// `Busy` holds from each emission strictly until the result is applied, and
/// while it holds nothing further is emitted.
pub proof fn lemma_flag_state_machine()
    ensures
        spec_decide(None) == Some(ChunkActionKind::Create),
        spec_decide(Some(ChunkFlagSet::spec_empty())) == Some(ChunkActionKind::Generate),
        spec_decide(Some(spec_emit_flags(ChunkFlagSet::spec_empty()))) is None,
        ({
            let generated = spec_apply_generation_flags(
                spec_emit_flags(ChunkFlagSet::spec_empty()),
            );
            &&& !generated.busy
            &&& generated.dirty
            &&& spec_decide(Some(generated)) == Some(ChunkActionKind::Mesh)
            &&& spec_decide(Some(spec_emit_flags(generated))) is None
            &&& ({
                let meshed = spec_apply_mesh_flags(spec_emit_flags(generated));
                &&& !meshed.busy
                &&& !meshed.dirty
                &&& spec_decide(Some(meshed)) == Some(ChunkActionKind::Draw)
                &&& spec_decide(Some(spec_emit_flags(meshed))) is None
                &&& ({
                    let drawn = spec_apply_draw_flags(spec_emit_flags(meshed));
                    &&& !drawn.busy
                    &&& spec_decide(Some(drawn)) is None
                    &&& spec_decide(
                        Some(ChunkFlagSet { dirty: true, ..drawn }),
                    ) == Some(ChunkActionKind::Mesh)
                })
            })
        }),
{
}

/// The `Busy` discipline, for every flag state: emission sets `Busy`, each
/// result application clears it, and a `Busy` chunk is never handed more
/// work.
pub proof fn lemma_busy_discipline(f: ChunkFlagSet)
    ensures
        spec_emit_flags(f).busy,
        !spec_apply_generation_flags(f).busy,
        !spec_apply_mesh_flags(f).busy,
        !spec_apply_draw_flags(f).busy,
        !spec_unload_flags(f).busy,
        f.busy ==> spec_decide(Some(f)) is None,
{
}

/// `Dirty` is false immediately after a completed mesh, whatever the state
/// before.
pub proof fn lemma_mesh_clears_dirty(f: ChunkFlagSet)
    ensures
        !spec_apply_mesh_flags(f).dirty,
        !spec_apply_mesh_flags(f).busy,
{
}

/// A meshed, undrawn, free chunk is handed exactly one draw: the decision is
/// `Draw`, and from the emission until the result is applied the chunk
/// decides to nothing, so no second draw can be in flight; once drawn and
/// clean it is steady.
pub proof fn lemma_draw_emitted_once(f: ChunkFlagSet)
    requires
        f.meshed,
        !f.drawn,
        !f.busy,
        f.generated,
    ensures
        spec_decide(Some(f)) == Some(ChunkActionKind::Draw),
        spec_decide(Some(spec_emit_flags(f))) is None,
        ({
            let after = spec_apply_draw_flags(spec_emit_flags(f));
            !f.dirty ==> spec_decide(Some(after)) is None
        }),
{
}

/// A decided `Draw` can always be applied: the decision rule only hands out
/// `Draw` for a `Meshed` chunk, and a well-formed `Meshed` chunk has a mesh
/// handle for the renderable entity to adopt.
pub proof fn lemma_decided_draw_applies(chunk: Chunk)
    requires
        chunk.wf(),
        spec_decide(Some(chunk.flags)) == Some(ChunkActionKind::Draw),
    ensures
        chunk.mesh is Some,
{
}

/// Create the chunk for a coordinate if the registry has none yet: the
/// standard chunk size, default voxels, all flags clear, anchored at the
/// chunk's center.
pub fn create_chunk(registry: &mut ChunkRegistry, coordinates: Coordinates)
    requires
        in_supported_range(coordinates),
        old(registry).wf(),
    ensures
        final(registry).wf(),
        final(registry)@.dom().contains(spec_domain_to_id(coordinates) as i64),
        old(registry)@.dom().contains(spec_domain_to_id(coordinates) as i64) ==> final(registry)@
            == old(registry)@,
        !old(registry)@.dom().contains(spec_domain_to_id(coordinates) as i64) ==> {
            let c = final(registry)@[spec_domain_to_id(coordinates) as i64];
            &&& final(registry)@ == old(registry)@.insert(spec_domain_to_id(coordinates) as i64, c)
            &&& c.flags == ChunkFlagSet::spec_empty()
            &&& c.dimensions.width == CHUNK_SIZE
            &&& c.dimensions.height == CHUNK_HEIGHT
            &&& c.dimensions.depth == CHUNK_SIZE
            &&& c.mesh is None
            &&& c.entity is None
            &&& forall|i: int|
                0 <= i < c.voxels@.len() ==> c.voxels@[i] == Voxel::spec_default()
        },
{
    let center = ChunkRegistry::get_chunk_center(coordinates);
    let chunk = Chunk::new(CHUNK_SIZE as u32, CHUNK_HEIGHT as u32, CHUNK_SIZE as u32, center);
    registry.push_chunk_at(coordinates, chunk);
}

/// Apply a finished generation result: replace the buffer and step the flags
/// (`Generated`, `Dirty`, `Busy` cleared). Returns whether a chunk was there
/// to receive it; a buffer of the wrong size is refused and the chunk left
/// untouched but freed.
pub fn apply_generation_result(
    registry: &mut ChunkRegistry,
    coordinates: Coordinates,
    voxels: Vec<Voxel>,
) -> (applied: bool)
    requires
        old(registry).wf(),
    ensures
        final(registry).wf(),
        ({
            let id = spec_domain_to_id(coordinates) as i64;
            if !old(registry)@.dom().contains(id) {
                !applied && final(registry)@ == old(registry)@
            } else {
                let chunk = old(registry)@[id];
                if voxels.len() == chunk.dimensions.spec_volume() {
                    &&& applied
                    &&& final(registry)@ == old(registry)@.insert(
                        id,
                        Chunk {
                            voxels: voxels,
                            flags: spec_apply_generation_flags(chunk.flags),
                            ..chunk
                        },
                    )
                } else {
                    &&& !applied
                    &&& final(registry)@ == old(registry)@.insert(
                        id,
                        Chunk { flags: ChunkFlagSet { busy: false, ..chunk.flags }, ..chunk },
                    )
                }
            }
        }),
{
    let taken = registry.take_chunk_at(coordinates);
    match taken {
        None => {
            proof {
                assert(final(registry)@ =~= old(registry)@);
            }
            false
        },
        Some(mut chunk) => {
            let volume = chunk.voxels.len();
            if voxels.len() == volume {
                chunk.set_voxels(voxels);
                chunk.set_busy(false);
                chunk.set_dirty(true);
                chunk.set_generated(true);
                let ghost expected = Chunk {
                    voxels: voxels,
                    flags: spec_apply_generation_flags(
                        old(registry)@[spec_domain_to_id(coordinates) as i64].flags,
                    ),
                    ..old(registry)@[spec_domain_to_id(coordinates) as i64]
                };
                proof {
                    assert(chunk == expected);
                }
                registry.put_chunk_at(coordinates, chunk);
                true
            } else {
                // A result that does not fit the chunk is abandoned; the
                // chunk must still be freed so discovery can retry.
                chunk.set_busy(false);
                registry.put_chunk_at(coordinates, chunk);
                false
            }
        },
    }
}

/// Apply a finished meshing result: adopt the mesh handle and step the flags
/// (`Meshed`, `Dirty` and `Busy` cleared). Returns whether a chunk was there.
pub fn apply_mesh_result(registry: &mut ChunkRegistry, coordinates: Coordinates, mesh: u64) -> (
    applied: bool)
    requires
        old(registry).wf(),
    ensures
        final(registry).wf(),
        ({
            let id = spec_domain_to_id(coordinates) as i64;
            if !old(registry)@.dom().contains(id) {
                !applied && final(registry)@ == old(registry)@
            } else {
                let chunk = old(registry)@[id];
                &&& applied
                &&& final(registry)@ == old(registry)@.insert(
                    id,
                    Chunk {
                        mesh: Some(mesh),
                        flags: spec_apply_mesh_flags(chunk.flags),
                        ..chunk
                    },
                )
            }
        }),
{
    let taken = registry.take_chunk_at(coordinates);
    match taken {
        None => {
            proof {
                assert(final(registry)@ =~= old(registry)@);
            }
            false
        },
        Some(mut chunk) => {
            chunk.set_mesh(mesh);
            chunk.set_busy(false);
            chunk.set_dirty(false);
            proof {
                assert(chunk.flags =~= spec_apply_mesh_flags(
                    old(registry)@[spec_domain_to_id(coordinates) as i64].flags,
                ));
            }
            registry.put_chunk_at(coordinates, chunk);
            true
        },
    }
}

/// Apply a draw: adopt the renderable-entity handle and step the flags
/// (`Drawn`, `Busy` cleared). A chunk without a mesh cannot be drawn; it is
/// left untouched (still `Busy` until discovery's next unload or retry, as a
/// draw without a mesh is never emitted by the decision rule).
pub fn apply_draw_result(registry: &mut ChunkRegistry, coordinates: Coordinates, entity: u64) -> (
    applied: bool)
    requires
        old(registry).wf(),
    ensures
        final(registry).wf(),
        ({
            let id = spec_domain_to_id(coordinates) as i64;
            if !old(registry)@.dom().contains(id) {
                !applied && final(registry)@ == old(registry)@
            } else {
                let chunk = old(registry)@[id];
                if chunk.mesh is Some {
                    &&& applied
                    &&& final(registry)@ == old(registry)@.insert(
                        id,
                        Chunk {
                            entity: Some(entity),
                            flags: spec_apply_draw_flags(chunk.flags),
                            ..chunk
                        },
                    )
                } else {
                    !applied && final(registry)@ == old(registry)@
                }
            }
        }),
{
    let taken = registry.take_chunk_at(coordinates);
    match taken {
        None => {
            proof {
                assert(final(registry)@ =~= old(registry)@);
            }
            false
        },
        Some(mut chunk) => {
            let has_mesh = chunk.get_mesh().is_some();
            if has_mesh {
                chunk.set_entity(entity);
                chunk.set_drawn(true);
                chunk.set_busy(false);
                proof {
                    assert(chunk.flags =~= spec_apply_draw_flags(
                        old(registry)@[spec_domain_to_id(coordinates) as i64].flags,
                    ));
                }
                registry.put_chunk_at(coordinates, chunk);
                true
            } else {
                registry.put_chunk_at(coordinates, chunk);
                proof {
                    assert(final(registry)@ =~= old(registry)@);
                }
                false
            }
        },
    }
}

/// Hide a chunk that left the active radius or the view: `Drawn` and `Busy`
/// cleared, everything else (content, mesh, entity handle) kept for cheap
/// re-entry.
pub fn unload_chunk(registry: &mut ChunkRegistry, coordinates: Coordinates) -> (found: bool)
    requires
        old(registry).wf(),
    ensures
        final(registry).wf(),
        ({
            let id = spec_domain_to_id(coordinates) as i64;
            if !old(registry)@.dom().contains(id) {
                !found && final(registry)@ == old(registry)@
            } else {
                let chunk = old(registry)@[id];
                &&& found
                &&& final(registry)@ == old(registry)@.insert(
                    id,
                    Chunk { flags: spec_unload_flags(chunk.flags), ..chunk },
                )
            }
        }),
{
    let taken = registry.take_chunk_at(coordinates);
    match taken {
        None => {
            proof {
                assert(final(registry)@ =~= old(registry)@);
            }
            false
        },
        Some(mut chunk) => {
            chunk.set_drawn(false);
            chunk.set_busy(false);
            proof {
                assert(chunk.flags =~= spec_unload_flags(
                    old(registry)@[spec_domain_to_id(coordinates) as i64].flags,
                ));
            }
            registry.put_chunk_at(coordinates, chunk);
            true
        },
    }
}

} // verus!
