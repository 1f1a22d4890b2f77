//! Discovery: which coordinates around the viewpoint are relevant, and what
//! pipeline action each of them needs next.
//!
//! A discovery pass enumerates the grid points within the configured radii
//! around the camera's chunk, consults the registry's flags for each, emits
//! the next action per coordinate (marking the chunk `Busy` at emission so no
//! coordinate gets two actions), and queues the actions; a bounded number is
//! drained per tick to smooth frame-time spikes.

use vstd::prelude::*;
use vstd::arithmetic::div_mod::{
    lemma_fundamental_div_mod, lemma_fundamental_div_mod_converse, lemma_mod_bound,
    lemma_div_pos_is_pos,
};
use crate::chunk::Chunk;
use crate::coords::Coordinates;
use crate::lifecycle::{
    decide_action, spec_decide, spec_emit_flags, ChunkAction, ChunkActionKind,
};
use crate::registry::{spec_domain_to_id, ChunkRegistry, CHUNK_SIZE, CHUNK_HEIGHT};

verus! {

/// How many queued actions are dispatched per tick; the rest wait for the
/// next cycle instead of being dropped.
pub const QUEUE_PROCESS_LIMIT: usize = 24;

/// Discovery configuration: radii in chunks, and whether distance-based
/// level of detail is assigned.
#[derive(Debug, Clone, Copy, PartialEq, Eq, Structural)]
pub struct DiscoverySettings {
    pub discovery_radius: i8,
    pub discovery_radius_height: i8,
    pub lod: bool,
}

/// The world coordinate of the chunk at grid offset `(dx, dy, dz)` from the
/// camera's chunk.
pub open spec fn spec_discovery_coord(center: Coordinates, dx: int, dy: int, dz: int)
    -> Coordinates {
    Coordinates {
        x: ((center.x + dx) * CHUNK_SIZE) as i32,
        y: ((center.y + dy) * CHUNK_HEIGHT) as i32,
        z: ((center.z + dz) * CHUNK_SIZE) as i32,
    }
}

/// Grid offsets encoded at position `j` of the enumeration: x slowest, then
/// y, then z.
pub open spec fn spec_discovery_dz(radius: int, radius_height: int, j: int) -> int {
    j % (2 * radius + 1) - radius
}

pub open spec fn spec_discovery_dy(radius: int, radius_height: int, j: int) -> int {
    (j / (2 * radius + 1)) % (2 * radius_height + 1) - radius_height
}

pub open spec fn spec_discovery_dx(radius: int, radius_height: int, j: int) -> int {
    (j / (2 * radius + 1)) / (2 * radius_height + 1) - radius
}

/// The coordinate at position `j` of the enumeration.
pub open spec fn spec_discovery_at(
    center: Coordinates,
    radius: int,
    radius_height: int,
    j: int,
) -> Coordinates {
    spec_discovery_coord(
        center,
        spec_discovery_dx(radius, radius_height, j),
        spec_discovery_dy(radius, radius_height, j),
        spec_discovery_dz(radius, radius_height, j),
    )
}

/// Number of candidates a pass enumerates.
pub open spec fn spec_discovery_len(radius: int, radius_height: int) -> int {
    (2 * radius + 1) * (2 * radius_height + 1) * (2 * radius + 1)
}

/// Bounds under which the enumeration's coordinate arithmetic stays well
/// inside `i32`.
pub open spec fn discovery_input_valid(center: Coordinates, radius: int, radius_height: int)
    -> bool {
    &&& 0 <= radius <= 128
    &&& 0 <= radius_height <= 128
    &&& -1000000 <= center.x - radius && center.x + radius <= 1000000
    &&& -1000000 <= center.y - radius_height && center.y + radius_height <= 1000000
    &&& -1000000 <= center.z - radius && center.z + radius <= 1000000
}

/// Enumerate every candidate coordinate within the configured radii around
/// the camera's chunk `center` (given in chunk-grid units): the full integer
/// grid box, x slowest, z fastest, scaled to world coordinates.
pub fn enumerate_discovery_coords(center: Coordinates, radius: i32, radius_height: i32) -> (r: Vec<
    Coordinates,
>)
    requires
        discovery_input_valid(center, radius as int, radius_height as int),
    ensures
        r@.len() == spec_discovery_len(radius as int, radius_height as int),
        forall|j: int|
            0 <= j < r@.len() ==> #[trigger] r@[j] == spec_discovery_at(
                center,
                radius as int,
                radius_height as int,
                j,
            ),
{
    let sz = (2 * radius + 1) as usize;
    let sy = (2 * radius_height + 1) as usize;
    let sx = sz;
    proof {
        assert((sz as int) * (sy as int) <= 0x10201 * 0x101 && (sz as int) * (sy as int) * (
        sx as int) <= 0x1030301) by (nonlinear_arith)
            requires
                0 < sz <= 257,
                0 < sy <= 257,
                sx == sz,
        {}
    }
    let layer = sz * sy;
    let total = layer * sx;
    let mut result: Vec<Coordinates> = Vec::new();
    let mut j: usize = 0;
    while j < total
        invariant
            discovery_input_valid(center, radius as int, radius_height as int),
            sz == 2 * radius + 1,
            sy == 2 * radius_height + 1,
            sx == sz,
            layer == sz * sy,
            total == layer * sx,
            total <= 0x1030301,
            j <= total,
            result@.len() == j,
            forall|k: int|
                0 <= k < j ==> #[trigger] result@[k] == spec_discovery_at(
                    center,
                    radius as int,
                    radius_height as int,
                    k,
                ),
        decreases total - j,
    {
        let dz = (j % sz) as i32 - radius;
        let dy = ((j / sz) % sy) as i32 - radius_height;
        let dx = ((j / sz) / sy) as i32 - radius;
        proof {
            lemma_mod_bound(j as int, sz as int);
            lemma_mod_bound((j as int) / (sz as int), sy as int);
            lemma_div_pos_is_pos(j as int, sz as int);
            lemma_div_pos_is_pos((j as int) / (sz as int), sy as int);
            assert((j as int) / (sz as int) / (sy as int) < sx) by (nonlinear_arith)
                requires
                    0 <= j < total,
                    (total as int) == (sz as int) * (sy as int) * (sx as int),
                    (layer as int) == (sz as int) * (sy as int),
                    sz > 0,
                    sy > 0,
                    sx > 0,
            {}
        }
        result.push(
            Coordinates {
                x: (center.x + dx) * CHUNK_SIZE,
                y: (center.y + dy) * CHUNK_HEIGHT,
                z: (center.z + dz) * CHUNK_SIZE,
            },
        );
        j = j + 1;
    }
    result
}

/// The edge lengths of a standard chunk, as the frustum test wants them.
pub open spec fn spec_chunk_extent() -> Coordinates {
    Coordinates { x: CHUNK_SIZE, y: CHUNK_HEIGHT, z: CHUNK_SIZE }
}

/// The visible prefix of the enumeration: the first `n` candidates, keeping
/// only those whose chunk bounding box passes the frustum test.
pub open spec fn spec_visible_discovery_upto(
    center: Coordinates,
    radius: int,
    radius_height: int,
    spaces: Seq<crate::frustum::HalfSpace>,
    margin: int,
    n: nat,
) -> Seq<Coordinates>
    decreases n,
{
    if n == 0 {
        Seq::empty()
    } else {
        spec_visible_discovery_upto(center, radius, radius_height, spaces, margin, (n - 1) as nat)
            + if crate::frustum::spec_chunk_visible(
            spec_discovery_at(center, radius, radius_height, n - 1),
            spec_chunk_extent(),
            spaces,
            margin,
        ) {
            seq![spec_discovery_at(center, radius, radius_height, n - 1)]
        } else {
            Seq::empty()
        }
    }
}

/// Enumerate the candidates within the radii and keep only those visible
/// through the camera frustum, in enumeration order: the frustum-filtered
/// variant of [`enumerate_discovery_coords`].
pub fn discover_visible_coords(
    center: Coordinates,
    radius: i32,
    radius_height: i32,
    spaces: &[crate::frustum::HalfSpace; 6],
    margin: i64,
) -> (r: Vec<Coordinates>)
    requires
        discovery_input_valid(center, radius as int, radius_height as int),
        forall|i: int|
            0 <= i < 6 ==> crate::frustum::half_space_bounded(#[trigger] spaces@[i]),
        -0x1000000000000000 <= margin <= 0x1000000000000000,
    ensures
        r@ == spec_visible_discovery_upto(
            center,
            radius as int,
            radius_height as int,
            spaces@,
            margin as int,
            spec_discovery_len(radius as int, radius_height as int) as nat,
        ),
{
    let candidates = enumerate_discovery_coords(center, radius, radius_height);
    let mut result: Vec<Coordinates> = Vec::new();
    let mut j: usize = 0;
    while j < candidates.len()
        invariant
            discovery_input_valid(center, radius as int, radius_height as int),
            forall|i: int|
                0 <= i < 6 ==> crate::frustum::half_space_bounded(#[trigger] spaces@[i]),
            -0x1000000000000000 <= margin <= 0x1000000000000000,
            j <= candidates@.len(),
            candidates@.len() == spec_discovery_len(radius as int, radius_height as int),
            forall|k: int|
                0 <= k < candidates@.len() ==> #[trigger] candidates@[k] == spec_discovery_at(
                    center,
                    radius as int,
                    radius_height as int,
                    k,
                ),
            result@ == spec_visible_discovery_upto(
                center,
                radius as int,
                radius_height as int,
                spaces@,
                margin as int,
                j as nat,
            ),
        decreases candidates@.len() - j,
    {
        let c = candidates[j];
        proof {
            lemma_discovery_bounding(candidates@, center, radius as int, radius_height as int);
            assert(spec_discovery_entry_in_range(
                candidates@,
                center,
                radius as int,
                radius_height as int,
                j as int,
            ));
        }
        if crate::frustum::is_chunk_visible(
            c,
            Coordinates { x: CHUNK_SIZE, y: CHUNK_HEIGHT, z: CHUNK_SIZE },
            spaces,
            margin,
        ) {
            result.push(c);
        }
        j = j + 1;
    }
    result
}

/// A coordinate whose chunk is `Busy` is never handed another action: one
/// discovery decision on it changes nothing and emits nothing.
pub proof fn lemma_busy_excluded(m: Map<i64, Chunk>, busy: Seq<Coordinates>, c: Coordinates)
    requires
        m.dom().contains(spec_domain_to_id(c) as i64),
        m[spec_domain_to_id(c) as i64].flags.busy,
    ensures
        spec_process_one(m, busy, c).0 == m,
        spec_process_one(m, busy, c).2 == Seq::<ChunkAction>::empty(),
{
}

/// One enumerated entry is a grid point within the radii: its offsets are in
/// range and it is the scaled coordinate of those offsets.
pub open spec fn spec_discovery_entry_in_range(
    result: Seq<Coordinates>,
    center: Coordinates,
    radius: int,
    radius_height: int,
    j: int,
) -> bool {
    &&& -radius <= spec_discovery_dx(radius, radius_height, j) <= radius
    &&& -radius_height <= spec_discovery_dy(radius, radius_height, j) <= radius_height
    &&& -radius <= spec_discovery_dz(radius, radius_height, j) <= radius
    &&& result[j] == spec_discovery_coord(
        center,
        spec_discovery_dx(radius, radius_height, j),
        spec_discovery_dy(radius, radius_height, j),
        spec_discovery_dz(radius, radius_height, j),
    )
}

/// Discovery bounding: with no frustum filter, the enumerated set is exactly
/// the integer grid points within the horizontal and vertical radii — every
/// in-range offset appears, and nothing else does.
pub proof fn lemma_discovery_bounding(
    result: Seq<Coordinates>,
    center: Coordinates,
    radius: int,
    radius_height: int,
)
    requires
        discovery_input_valid(center, radius, radius_height),
        result.len() == spec_discovery_len(radius, radius_height),
        forall|j: int|
            0 <= j < result.len() ==> #[trigger] result[j] == spec_discovery_at(
                center,
                radius,
                radius_height,
                j,
            ),
    ensures
        forall|dx: int, dy: int, dz: int|
            -radius <= dx <= radius && -radius_height <= dy <= radius_height && -radius <= dz
                <= radius ==> result.contains(#[trigger] spec_discovery_coord(center, dx, dy, dz)),
        forall|j: int|
            0 <= j < result.len() ==> #[trigger] spec_discovery_entry_in_range(
                result,
                center,
                radius,
                radius_height,
                j,
            ),
{
    let sz = 2 * radius + 1;
    let sy = 2 * radius_height + 1;
    assert forall|dx: int, dy: int, dz: int|
        -radius <= dx <= radius && -radius_height <= dy <= radius_height && -radius <= dz
            <= radius implies result.contains(
        #[trigger] spec_discovery_coord(center, dx, dy, dz)) by {
        let j = ((dx + radius) * sy + (dy + radius_height)) * sz + (dz + radius);
        assert(0 <= j < result.len() && j / sz == (dx + radius) * sy + (dy + radius_height) && j
            % sz == dz + radius) by {
            lemma_fundamental_div_mod_converse(
                j,
                sz,
                (dx + radius) * sy + (dy + radius_height),
                dz + radius,
            );
            assert(0 <= j < sz * sy * sz) by (nonlinear_arith)
                requires
                    j == ((dx + radius) * sy + (dy + radius_height)) * sz + (dz + radius),
                    0 <= dx + radius < sz,
                    0 <= dy + radius_height < sy,
                    0 <= dz + radius < sz,
                    sz == 2 * radius + 1,
                    sy == 2 * radius_height + 1,
            {}
            assert(result.len() == sz * sy * sz) by (nonlinear_arith)
                requires
                    result.len() == (2 * radius + 1) * (2 * radius_height + 1) * (2 * radius + 1),
                    sz == 2 * radius + 1,
                    sy == 2 * radius_height + 1,
            {}
        }
        lemma_fundamental_div_mod_converse(j / sz, sy, dx + radius, dy + radius_height);
        assert(spec_discovery_at(center, radius, radius_height, j) == spec_discovery_coord(
            center,
            dx,
            dy,
            dz,
        ));
        assert(result[j] == spec_discovery_coord(center, dx, dy, dz));
    }
    assert forall|j: int| 0 <= j < result.len() implies #[trigger] spec_discovery_entry_in_range(
        result,
        center,
        radius,
        radius_height,
        j,
    ) by {
        lemma_mod_bound(j, sz);
        lemma_mod_bound(j / sz, sy);
        lemma_div_pos_is_pos(j, sz);
        lemma_div_pos_is_pos(j / sz, sy);
        lemma_fundamental_div_mod(j, sz);
        lemma_fundamental_div_mod(j / sz, sy);
        assert(j / sz / sy < sz) by (nonlinear_arith)
            requires
                0 <= j < result.len(),
                result.len() == sz * sy * sz,
                j / sz == sy * (j / sz / sy) + (j / sz) % sy,
                j == sz * (j / sz) + j % sz,
                0 <= j % sz < sz,
                0 <= (j / sz) % sy < sy,
                0 <= j / sz / sy,
                sz > 0,
                sy > 0,
        {}
        assert(result.len() == sz * sy * sz) by (nonlinear_arith)
            requires
                result.len() == (2 * radius + 1) * (2 * radius_height + 1) * (2 * radius + 1),
                sz == 2 * radius + 1,
                sy == 2 * radius_height + 1,
        {}
    }
}

/// Coordinates whose chunks have work in flight, kept apart from the chunks
/// themselves so a pass can skip them without touching the registry; cleared
/// on a fixed interval by the embedding loop to bound memory.
#[derive(Debug)]
pub struct BusyLocations {
    locations: Vec<Coordinates>,
}

impl View for BusyLocations {
    type V = Seq<Coordinates>;

    closed spec fn view(&self) -> Seq<Coordinates> {
        self.locations@
    }
}

impl BusyLocations {
    pub fn new() -> (r: BusyLocations)
        ensures
            r@ == Seq::<Coordinates>::empty(),
    {
        BusyLocations { locations: Vec::new() }
    }

    pub fn contains(&self, c: Coordinates) -> (r: bool)
        ensures
            r == self@.contains(c),
    {
        let mut i: usize = 0;
        while i < self.locations.len()
            invariant
                i <= self.locations@.len(),
                forall|k: int| 0 <= k < i ==> self.locations@[k] != c,
            decreases self.locations@.len() - i,
        {
            if self.locations[i] == c {
                return true;
            }
            i = i + 1;
        }
        false
    }

    pub fn insert(&mut self, c: Coordinates)
        ensures
            final(self)@ == old(self)@.push(c),
    {
        self.locations.push(c);
    }

    pub fn clear(&mut self)
        ensures
            final(self)@ == Seq::<Coordinates>::empty(),
    {
        self.locations.clear();
    }
}

/// The pending-action queue: actions wait here and a bounded number is
/// dispatched per tick.
#[derive(Debug)]
pub struct ActionQueue {
    queue: Vec<ChunkAction>,
}

impl View for ActionQueue {
    type V = Seq<ChunkAction>;

    closed spec fn view(&self) -> Seq<ChunkAction> {
        self.queue@
    }
}

impl ActionQueue {
    pub fn new() -> (r: ActionQueue)
        ensures
            r@ == Seq::<ChunkAction>::empty(),
    {
        ActionQueue { queue: Vec::new() }
    }

    pub fn push(&mut self, action: ChunkAction)
        ensures
            final(self)@ == old(self)@.push(action),
    {
        self.queue.push(action);
    }

    pub fn len(&self) -> (n: usize)
        ensures
            n == self@.len(),
    {
        self.queue.len()
    }

    /// Take up to `limit` actions off the front, in order; the rest stay
    /// queued for the next cycle.
    pub fn drain(&mut self, limit: usize) -> (r: Vec<ChunkAction>)
        ensures
            ({
                let k = if limit <= old(self)@.len() {
                    limit as int
                } else {
                    old(self)@.len() as int
                };
                &&& r@ == old(self)@.subrange(0, k)
                &&& final(self)@ == old(self)@.subrange(k, old(self)@.len() as int)
            }),
    {
        let k = if limit <= self.queue.len() {
            limit
        } else {
            self.queue.len()
        };
        let mut taken: Vec<ChunkAction> = Vec::new();
        let mut i: usize = 0;
        while i < k
            invariant
                k <= self.queue@.len(),
                i <= k,
                self.queue@ == old(self)@,
                taken@ == old(self)@.subrange(0, i as int),
            decreases k - i,
        {
            taken.push(self.queue[i]);
            proof {
                assert(taken@ =~= old(self)@.subrange(0, i + 1));
            }
            i = i + 1;
        }
        let mut rest: Vec<ChunkAction> = Vec::new();
        let mut j: usize = k;
        while j < self.queue.len()
            invariant
                k <= j <= self.queue@.len(),
                self.queue@ == old(self)@,
                rest@ == old(self)@.subrange(k as int, j as int),
            decreases self.queue@.len() - j,
        {
            rest.push(self.queue[j]);
            proof {
                assert(rest@ =~= old(self)@.subrange(k as int, j + 1));
            }
            j = j + 1;
        }
        self.queue = rest;
        taken
    }
}

/// A chunk marked `Busy` at action emission.
pub open spec fn spec_mark_busy(chunk: Chunk) -> Chunk {
    Chunk { flags: spec_emit_flags(chunk.flags), ..chunk }
}

/// One discovery decision: a recently dispatched coordinate is skipped; a
/// missing chunk asks for `Create` (and stays absent until the create lands);
/// otherwise the flag rule decides, and an emitted action marks the chunk
/// `Busy` and remembers the coordinate.
pub open spec fn spec_process_one(
    m: Map<i64, Chunk>,
    busy: Seq<Coordinates>,
    c: Coordinates,
) -> (Map<i64, Chunk>, Seq<Coordinates>, Seq<ChunkAction>) {
    if busy.contains(c) {
        (m, busy, Seq::empty())
    } else {
        let id = spec_domain_to_id(c) as i64;
        if !m.dom().contains(id) {
            (m, busy, seq![ChunkAction { kind: ChunkActionKind::Create, coordinates: c }])
        } else {
            match spec_decide(Some(m[id].flags)) {
                None => (m, busy, Seq::empty()),
                Some(kind) => (
                    m.insert(id, spec_mark_busy(m[id])),
                    busy.push(c),
                    seq![ChunkAction { kind, coordinates: c }],
                ),
            }
        }
    }
}

/// A whole pass over the first `n` candidates, threading the registry map
/// and the busy set and concatenating the emitted actions.
pub open spec fn spec_process_discovery(
    m: Map<i64, Chunk>,
    busy: Seq<Coordinates>,
    candidates: Seq<Coordinates>,
    n: nat,
) -> (Map<i64, Chunk>, Seq<Coordinates>, Seq<ChunkAction>)
    decreases n,
{
    if n == 0 {
        (m, busy, Seq::empty())
    } else {
        let prev = spec_process_discovery(m, busy, candidates, (n - 1) as nat);
        let step = spec_process_one(prev.0, prev.1, candidates[n - 1]);
        (step.0, step.1, prev.2 + step.2)
    }
}

/// Run the discovery decisions for a list of candidate coordinates: consult
/// each chunk's flags, mark chunks `Busy` at emission time, remember emitted
/// coordinates, and append the emitted actions to the queue. `Busy` chunks
/// and remembered coordinates are excluded, so no coordinate is handed two
/// concurrent actions.
pub fn process_discovery(
    registry: &mut ChunkRegistry,
    busy: &mut BusyLocations,
    candidates: &Vec<Coordinates>,
    queue: &mut ActionQueue,
)
    requires
        old(registry).wf(),
    ensures
        final(registry).wf(),
        ({
            let folded = spec_process_discovery(
                old(registry)@,
                old(busy)@,
                candidates@,
                candidates@.len() as nat,
            );
            &&& final(registry)@ == folded.0
            &&& final(busy)@ == folded.1
            &&& final(queue)@ == old(queue)@ + folded.2
        }),
{
    let mut i: usize = 0;
    while i < candidates.len()
        invariant
            registry.wf(),
            i <= candidates@.len(),
            ({
                let folded = spec_process_discovery(
                    old(registry)@,
                    old(busy)@,
                    candidates@,
                    i as nat,
                );
                &&& registry@ == folded.0
                &&& busy@ == folded.1
                &&& queue@ == old(queue)@ + folded.2
            }),
        decreases candidates@.len() - i,
    {
        let c = candidates[i];
        if !busy.contains(c) {
            let taken = registry.take_chunk_at(c);
            match taken {
                None => {
                    proof {
                        assert(registry@ =~= spec_process_discovery(
                            old(registry)@,
                            old(busy)@,
                            candidates@,
                            i as nat,
                        ).0);
                    }
                    queue.push(ChunkAction { kind: ChunkActionKind::Create, coordinates: c });
                },
                Some(mut chunk) => {
                    let decision = decide_action(chunk.get_flags());
                    match decision {
                        None => {
                            registry.put_chunk_at(c, chunk);
                            proof {
                                assert(registry@ =~= spec_process_discovery(
                                    old(registry)@,
                                    old(busy)@,
                                    candidates@,
                                    i as nat,
                                ).0);
                            }
                        },
                        Some(kind) => {
                            chunk.set_busy(true);
                            registry.put_chunk_at(c, chunk);
                            busy.insert(c);
                            queue.push(ChunkAction { kind, coordinates: c });
                        },
                    }
                },
            }
        }
        i = i + 1;
        proof {
            let ghost folded_prev = spec_process_discovery(
                old(registry)@,
                old(busy)@,
                candidates@,
                (i - 1) as nat,
            );
            let ghost folded = spec_process_discovery(
                old(registry)@,
                old(busy)@,
                candidates@,
                i as nat,
            );
            assert(folded.2 == folded_prev.2 + spec_process_one(
                folded_prev.0,
                folded_prev.1,
                candidates@[i - 1],
            ).2);
            assert(queue@ =~= old(queue)@ + folded.2);
        }
    }
}

/// Per-axis distance between two positions, measured in chunks.
pub open spec fn spec_chunk_axis_distance(a: int, b: int, size: int) -> int {
    let d = a / size - b / size;
    if d < 0 {
        -d
    } else {
        d
    }
}

/// Whether a chunk has fallen out of range or out of view and should be
/// hidden: more than one chunk beyond a radius on any axis, or not visible.
pub open spec fn spec_should_unload(
    position: Coordinates,
    camera: Coordinates,
    settings: DiscoverySettings,
    visible: bool,
) -> bool {
    ||| spec_chunk_axis_distance(position.x as int, camera.x as int, CHUNK_SIZE as int)
        > settings.discovery_radius + 1
    ||| spec_chunk_axis_distance(position.z as int, camera.z as int, CHUNK_SIZE as int)
        > settings.discovery_radius + 1
    ||| spec_chunk_axis_distance(position.y as int, camera.y as int, CHUNK_HEIGHT as int)
        > settings.discovery_radius_height + 1
    ||| !visible
}

/// Decide whether the chunk at `position` should be hidden, given the camera
/// position (both in voxels) and whether any of the chunk's bounding points
/// is visible.
pub fn should_unload_chunk(
    position: Coordinates,
    camera: Coordinates,
    settings: &DiscoverySettings,
    visible: bool,
) -> (r: bool)
    ensures
        r == spec_should_unload(position, camera, *settings, visible),
{
    let dx = chunk_axis_distance(position.x, camera.x);
    let dz = chunk_axis_distance(position.z, camera.z);
    let dy = chunk_axis_distance(position.y, camera.y);
    dx > settings.discovery_radius as i64 + 1 || dz > settings.discovery_radius as i64 + 1 || dy
        > settings.discovery_radius_height as i64 + 1 || !visible
}

/// Distance between two world coordinates in whole chunks.
fn chunk_axis_distance(a: i32, b: i32) -> (d: i64)
    ensures
        d == spec_chunk_axis_distance(a as int, b as int, CHUNK_SIZE as int),
        0 <= d,
{
    let ga = crate::fixed::div_floor_i64(a as i64, CHUNK_SIZE as i64);
    let gb = crate::fixed::div_floor_i64(b as i64, CHUNK_SIZE as i64);
    if ga >= gb {
        ga - gb
    } else {
        gb - ga
    }
}

/// The level of detail assigned from the camera distance: three steps per
/// chunk of the smallest per-axis distance, one below, clamped to the
/// supported range — nearer chunks get more detail.
pub open spec fn spec_lod_for_distance(position: Coordinates, camera: Coordinates) -> int {
    let dx = spec_chunk_axis_distance(position.x as int, camera.x as int, CHUNK_SIZE as int);
    let dy = spec_chunk_axis_distance(position.y as int, camera.y as int, CHUNK_HEIGHT as int);
    let dz = spec_chunk_axis_distance(position.z as int, camera.z as int, CHUNK_SIZE as int);
    let dmin = if dx < dy && dx < dz {
        dx
    } else if dy < dz {
        dy
    } else {
        dz
    };
    let scaled = 3 * dmin - 1;
    if scaled < 0 {
        0
    } else if scaled > 16 {
        16
    } else {
        scaled
    }
}

pub fn lod_for_distance(position: Coordinates, camera: Coordinates) -> (lod: u32)
    ensures
        lod == spec_lod_for_distance(position, camera),
        lod <= 16,
{
    let dx = chunk_axis_distance(position.x, camera.x);
    let dy = chunk_axis_distance(position.y, camera.y);
    let dz = chunk_axis_distance(position.z, camera.z);
    let dmin = if dx < dy && dx < dz {
        dx
    } else if dy < dz {
        dy
    } else {
        dz
    };
    let scaled = 3 * dmin - 1;
    if scaled < 0 {
        0
    } else if scaled > 16 {
        16
    } else {
        scaled as u32
    }
}

} // verus!
