//! The spatial registry: owns every chunk and maps a world-space coordinate to
//! the chunk that spatially contains it, through a deterministic linearization
//! (coordinate -> chunk id -> chunk).
//!
//! The linearization divides each axis by the chunk size (flooring, so that a
//! chunk's extent is exactly `[origin, origin + size)`) and combines the three
//! grid coordinates in a fixed radix. Within the supported coordinate range
//! the mapping is a bijection: `id_to_domain` recovers the chunk origin
//! exactly, and distinct chunks never alias.

use vstd::prelude::*;
use std::collections::HashMap;
use vstd::arithmetic::div_mod::{
    lemma_fundamental_div_mod, lemma_fundamental_div_mod_converse,
};
use crate::chunk::Chunk;
use crate::coords::Coordinates;

verus! {

broadcast use vstd::std_specs::hash::group_hash_axioms;

/// Edge length of a chunk along the x and z axes, in voxels.
pub const CHUNK_SIZE: i32 = 16;

/// Edge length of a chunk along the y axis, in voxels.
pub const CHUNK_HEIGHT: i32 = 16;

/// Radix used to combine the three grid coordinates into one chunk id: a
/// generous fraction of the 32-bit coordinate range (2147483647 / 48000, less
/// a small safety margin), so the supported grid spans far more chunks than a
/// camera can ever stream in while three radix digits still fit in an `i64`.
pub const CHUNK_GRID_SIZE: i64 = 44734;

/// Largest magnitude a per-axis grid coordinate may have for the
/// linearization to be bijective: digits live in
/// `[-GRID_HALF_EXTENT, GRID_HALF_EXTENT]`, which is `(CHUNK_GRID_SIZE - 2) / 2`,
/// so twice the extent still stays below the radix.
pub const GRID_HALF_EXTENT: i64 = 22366;

/// Largest magnitude of a chunk id produced from the supported grid range:
/// `GRID_HALF_EXTENT * (CHUNK_GRID_SIZE^2 + CHUNK_GRID_SIZE + 1)`.
pub const MAX_CHUNK_ID: i64 = 44758291031706;

/// Per-axis grid coordinate of the chunk containing a world coordinate:
/// floor division by the chunk size, so a chunk's extent on each axis is
/// `[16 * g, 16 * g + 16)`.
pub open spec fn spec_grid_coord(v: int) -> int {
    v / (CHUNK_SIZE as int)
}

/// Whether a coordinate lies in the range over which the linearization is
/// bijective. A configuration constraint: the id space must be sized against
/// the maximum world extent, and this is that extent.
pub open spec fn in_supported_range(c: Coordinates) -> bool {
    &&& -(GRID_HALF_EXTENT as int) <= spec_grid_coord(c.x as int) <= GRID_HALF_EXTENT as int
    &&& -(GRID_HALF_EXTENT as int) <= spec_grid_coord(c.y as int) <= GRID_HALF_EXTENT as int
    &&& -(GRID_HALF_EXTENT as int) <= spec_grid_coord(c.z as int) <= GRID_HALF_EXTENT as int
}

/// The chunk id of the chunk containing `c`:
/// `grid_x * radix^2 + grid_y * radix + grid_z`.
pub open spec fn spec_domain_to_id(c: Coordinates) -> int {
    let k = CHUNK_GRID_SIZE as int;
    spec_grid_coord(c.x as int) * k * k + spec_grid_coord(c.y as int) * k + spec_grid_coord(
        c.z as int,
    )
}

/// Ids on which `id_to_domain` is defined.
pub open spec fn valid_chunk_id(id: int) -> bool {
    -(MAX_CHUNK_ID as int) <= id <= MAX_CHUNK_ID as int
}

/// The grid digits encoded in a chunk id, recovered by biasing the id into
/// nonnegative territory and peeling radix digits off the low end.
pub open spec fn spec_id_grid_z(id: int) -> int {
    (id + MAX_CHUNK_ID) % (CHUNK_GRID_SIZE as int) - GRID_HALF_EXTENT
}

pub open spec fn spec_id_grid_y(id: int) -> int {
    ((id + MAX_CHUNK_ID) / (CHUNK_GRID_SIZE as int)) % (CHUNK_GRID_SIZE as int) - GRID_HALF_EXTENT
}

pub open spec fn spec_id_grid_x(id: int) -> int {
    ((id + MAX_CHUNK_ID) / (CHUNK_GRID_SIZE as int)) / (CHUNK_GRID_SIZE as int) - GRID_HALF_EXTENT
}

/// The world-space origin of the chunk a valid id denotes.
pub open spec fn spec_id_to_domain(id: int) -> Coordinates {
    Coordinates {
        x: (spec_id_grid_x(id) * CHUNK_SIZE) as i32,
        y: (spec_id_grid_y(id) * CHUNK_SIZE) as i32,
        z: (spec_id_grid_z(id) * CHUNK_SIZE) as i32,
    }
}

/// The origin of the chunk containing `c`.
pub open spec fn spec_chunk_origin(c: Coordinates) -> Coordinates {
    Coordinates {
        x: (spec_grid_coord(c.x as int) * CHUNK_SIZE) as i32,
        y: (spec_grid_coord(c.y as int) * CHUNK_SIZE) as i32,
        z: (spec_grid_coord(c.z as int) * CHUNK_SIZE) as i32,
    }
}

/// What one registry lookup returns: the chunk stored under the coordinate's
/// id, or `None` when the registry holds none.
pub open spec fn spec_lookup_matches(m: Map<i64, Chunk>, c: Coordinates, r: Option<&Chunk>) -> bool {
    match r {
        Some(chunk) => m.dom().contains(spec_domain_to_id(c) as i64) && *chunk == m[
            spec_domain_to_id(c) as i64
        ],
        None => !m.dom().contains(spec_domain_to_id(c) as i64),
    }
}

/// The coordinate one chunk extent away from `c` along the face at `slot`,
/// in the order +x, -x, +z, -z, +y, -y.
pub open spec fn spec_adjacent_coordinate(c: Coordinates, slot: int) -> Coordinates {
    if slot == 0 {
        Coordinates { x: (c.x + CHUNK_SIZE) as i32, y: c.y, z: c.z }
    } else if slot == 1 {
        Coordinates { x: (c.x - CHUNK_SIZE) as i32, y: c.y, z: c.z }
    } else if slot == 2 {
        Coordinates { x: c.x, y: c.y, z: (c.z + CHUNK_SIZE) as i32 }
    } else if slot == 3 {
        Coordinates { x: c.x, y: c.y, z: (c.z - CHUNK_SIZE) as i32 }
    } else if slot == 4 {
        Coordinates { x: c.x, y: (c.y + CHUNK_HEIGHT) as i32, z: c.z }
    } else {
        Coordinates { x: c.x, y: (c.y - CHUNK_HEIGHT) as i32, z: c.z }
    }
}

/// Floor division of a world coordinate by the chunk size.
fn div_floor_chunk(v: i32) -> (q: i32)
    ensures
        q == spec_grid_coord(v as int),
        -134217728 <= q <= 134217727,
{
    let t = v / CHUNK_SIZE;
    let r = v % CHUNK_SIZE;
    let q = if r != 0 && v < 0 {
        t - 1
    } else {
        t
    };
    proof {
        lemma_fundamental_div_mod_converse(
            v as int,
            CHUNK_SIZE as int,
            q as int,
            v - q * (CHUNK_SIZE as int),
        );
    }
    q
}

/// A chunk id decomposes uniquely into its three grid digits: peeling digits
/// off `a * k^2 + b * k + c` recovers exactly `(a, b, c)` whenever each digit
/// lies within the supported grid range.
pub proof fn lemma_id_digits_roundtrip(a: int, b: int, c: int)
    requires
        -(GRID_HALF_EXTENT as int) <= a <= GRID_HALF_EXTENT as int,
        -(GRID_HALF_EXTENT as int) <= b <= GRID_HALF_EXTENT as int,
        -(GRID_HALF_EXTENT as int) <= c <= GRID_HALF_EXTENT as int,
    ensures
        valid_chunk_id(a * (CHUNK_GRID_SIZE as int) * (CHUNK_GRID_SIZE as int) + b * (
        CHUNK_GRID_SIZE as int) + c),
        spec_id_grid_x(
            a * (CHUNK_GRID_SIZE as int) * (CHUNK_GRID_SIZE as int) + b * (CHUNK_GRID_SIZE as int)
                + c,
        ) == a,
        spec_id_grid_y(
            a * (CHUNK_GRID_SIZE as int) * (CHUNK_GRID_SIZE as int) + b * (CHUNK_GRID_SIZE as int)
                + c,
        ) == b,
        spec_id_grid_z(
            a * (CHUNK_GRID_SIZE as int) * (CHUNK_GRID_SIZE as int) + b * (CHUNK_GRID_SIZE as int)
                + c,
        ) == c,
{
    let k = CHUNK_GRID_SIZE as int;
    let h = GRID_HALF_EXTENT as int;
    let id = a * k * k + b * k + c;
    assert(MAX_CHUNK_ID as int == h * (k * k) + h * k + h) by (nonlinear_arith)
        requires
            k == 44734,
            h == 22366,
    {}
    let uid = id + MAX_CHUNK_ID;
    let q = (a + h) * k + (b + h);
    let r = c + h;
    assert(uid == q * k + r) by (nonlinear_arith)
        requires
            uid == a * k * k + b * k + c + h * (k * k) + h * k + h,
            q == (a + h) * k + (b + h),
            r == c + h,
    {}
    assert(0 <= r < k);
    lemma_fundamental_div_mod_converse(uid, k, q, r);
    assert(uid % k == r && uid / k == q);
    lemma_fundamental_div_mod_converse(q, k, a + h, b + h);
    assert(q % k == b + h && q / k == a + h);
    assert(valid_chunk_id(id)) by (nonlinear_arith)
        requires
            id == a * k * k + b * k + c,
            -h <= a <= h,
            -h <= b <= h,
            -h <= c <= h,
            k == CHUNK_GRID_SIZE as int,
            h == GRID_HALF_EXTENT as int,
            MAX_CHUNK_ID as int == h * (k * k) + h * k + h,
    {}
}

/// Linearization bijection, one direction: mapping a coordinate to its chunk
/// id and back yields the origin of the chunk containing it, and the id is
/// valid.
pub proof fn lemma_linearization_roundtrip(c: Coordinates)
    requires
        in_supported_range(c),
    ensures
        valid_chunk_id(spec_domain_to_id(c)),
        spec_id_to_domain(spec_domain_to_id(c)) == spec_chunk_origin(c),
{
    lemma_id_digits_roundtrip(
        spec_grid_coord(c.x as int),
        spec_grid_coord(c.y as int),
        spec_grid_coord(c.z as int),
    );
}

/// Linearization bijection, other direction: every valid id is reproduced by
/// linearizing the domain coordinate it maps to.
pub proof fn lemma_id_roundtrip(id: int)
    requires
        valid_chunk_id(id),
    ensures
        spec_domain_to_id(spec_id_to_domain(id)) == id,
{
    let k = CHUNK_GRID_SIZE as int;
    let h = GRID_HALF_EXTENT as int;
    assert(MAX_CHUNK_ID as int == h * (k * k) + h * k + h) by (nonlinear_arith)
        requires
            k == 44734,
            h == 22366,
    {}
    let uid = id + MAX_CHUNK_ID;
    assert(0 <= uid <= 2 * (MAX_CHUNK_ID as int));
    lemma_fundamental_div_mod(uid, k);
    let q = uid / k;
    let r = uid % k;
    lemma_fundamental_div_mod(q, k);
    let dx = q / k;
    let dy = q % k;
    assert(0 <= r < k && 0 <= dy < k);
    assert(0 <= q) by (nonlinear_arith)
        requires
            uid == k * q + r,
            0 <= uid,
            0 <= r < k,
            k > 0,
    {}
    assert(0 <= dx <= 2 * h) by (nonlinear_arith)
        requires
            uid == k * q + r,
            q == k * dx + dy,
            0 <= uid <= 2 * (h * (k * k) + h * k + h),
            0 <= r < k,
            0 <= dy < k,
            0 <= q,
            k == CHUNK_GRID_SIZE as int,
            h == GRID_HALF_EXTENT as int,
    {}
    let gx = dx - h;
    let gy = dy - h;
    let gz = r - h;
    // The recovered origin has each axis equal to 16 * digit, and flooring
    // 16 * digit by 16 gives the digit back.
    assert(spec_grid_coord(gx * (CHUNK_SIZE as int)) == gx && spec_grid_coord(
        gy * (CHUNK_SIZE as int),
    ) == gy && spec_grid_coord(gz * (CHUNK_SIZE as int)) == gz) by {
        lemma_fundamental_div_mod_converse(gx * (CHUNK_SIZE as int), CHUNK_SIZE as int, gx, 0);
        lemma_fundamental_div_mod_converse(gy * (CHUNK_SIZE as int), CHUNK_SIZE as int, gy, 0);
        lemma_fundamental_div_mod_converse(gz * (CHUNK_SIZE as int), CHUNK_SIZE as int, gz, 0);
    }
    assert(spec_domain_to_id(spec_id_to_domain(id)) == gx * k * k + gy * k + gz);
    assert(gx * k * k + gy * k + gz == id) by (nonlinear_arith)
        requires
            uid == k * q + r,
            q == k * dx + dy,
            uid == id + h * (k * k) + h * k + h,
            gx == dx - h,
            gy == dy - h,
            gz == r - h,
    {}
}

/// Within one chunk's extent the linearization is constant: two coordinates
/// with the same per-axis grid coordinates share the same chunk id.
pub proof fn lemma_same_chunk_same_id(c1: Coordinates, c2: Coordinates)
    requires
        spec_grid_coord(c1.x as int) == spec_grid_coord(c2.x as int),
        spec_grid_coord(c1.y as int) == spec_grid_coord(c2.y as int),
        spec_grid_coord(c1.z as int) == spec_grid_coord(c2.z as int),
    ensures
        spec_domain_to_id(c1) == spec_domain_to_id(c2),
{
}

/// Within the supported range the linearization never aliases: equal ids mean
/// equal chunk origins.
pub proof fn lemma_id_injective(c1: Coordinates, c2: Coordinates)
    requires
        in_supported_range(c1),
        in_supported_range(c2),
        spec_domain_to_id(c1) == spec_domain_to_id(c2),
    ensures
        spec_chunk_origin(c1) == spec_chunk_origin(c2),
{
    lemma_linearization_roundtrip(c1);
    lemma_linearization_roundtrip(c2);
}

/// A registry for managing and accessing chunks within a 3D environment,
/// keyed by the linearized chunk id. The map structure is only ever mutated
/// from the owner's thread; background work receives buffers by value.
#[derive(Debug)]
pub struct ChunkRegistry {
    chunks: HashMap<i64, Chunk>,
}

impl View for ChunkRegistry {
    type V = Map<i64, Chunk>;

    closed spec fn view(&self) -> Map<i64, Chunk> {
        self.chunks@
    }
}

impl ChunkRegistry {
    /// Every stored chunk is structurally well formed.
    pub open spec fn wf(self) -> bool {
        forall|id: i64| self@.dom().contains(id) ==> (#[trigger] self@[id]).wf()
    }

    pub fn new() -> (r: ChunkRegistry)
        ensures
            r@ == Map::<i64, Chunk>::empty(),
            r.wf(),
    {
        ChunkRegistry { chunks: HashMap::new() }
    }

    /// The chunk id of the chunk spatially containing `coordinates`.
    pub fn domain_to_id(coordinates: Coordinates) -> (id: i64)
        ensures
            id == spec_domain_to_id(coordinates),
    {
        let linear_x = div_floor_chunk(coordinates.x) as i64;
        let linear_y = div_floor_chunk(coordinates.y) as i64;
        let linear_z = div_floor_chunk(coordinates.z) as i64;
        proof {
            assert(-0x2000000000000000 <= linear_x * CHUNK_GRID_SIZE * CHUNK_GRID_SIZE
                <= 0x2000000000000000) by (nonlinear_arith)
                requires
                    -134217728 <= linear_x <= 134217727,
            {}
            assert(-0x100000000000000 <= linear_y * CHUNK_GRID_SIZE <= 0x100000000000000)
                by (nonlinear_arith)
                requires
                    -134217728 <= linear_y <= 134217727,
            {}
        }
        (linear_x * CHUNK_GRID_SIZE * CHUNK_GRID_SIZE) + (linear_y * CHUNK_GRID_SIZE) + linear_z
    }

    /// The exact inverse of [`Self::domain_to_id`] on valid ids: the origin
    /// of the chunk the id denotes.
    pub fn id_to_domain(id: i64) -> (c: Coordinates)
        requires
            valid_chunk_id(id as int),
        ensures
            c == spec_id_to_domain(id as int),
    {
        let biased = (id + MAX_CHUNK_ID) as u64;
        let radix = CHUNK_GRID_SIZE as u64;
        let digit_z = (biased % radix) as i64;
        let rest = biased / radix;
        let digit_y = (rest % radix) as i64;
        let digit_x = (rest / radix) as i64;
        proof {
            let k = CHUNK_GRID_SIZE as int;
            vstd::arithmetic::div_mod::lemma_mod_bound(biased as int, k);
            vstd::arithmetic::div_mod::lemma_mod_bound(rest as int, k);
            lemma_fundamental_div_mod(biased as int, k);
            lemma_fundamental_div_mod(rest as int, k);
            assert(0 <= digit_x <= 2 * GRID_HALF_EXTENT) by (nonlinear_arith)
                requires
                    biased as int == (CHUNK_GRID_SIZE as int) * (rest as int) + digit_z,
                    rest as int == (CHUNK_GRID_SIZE as int) * (digit_x as int) + digit_y,
                    0 <= biased as int <= 2 * (MAX_CHUNK_ID as int),
                    MAX_CHUNK_ID == 44758291031706,
                    CHUNK_GRID_SIZE == 44734,
                    GRID_HALF_EXTENT == 22366,
                    0 <= digit_z < CHUNK_GRID_SIZE as int,
                    0 <= digit_y < CHUNK_GRID_SIZE as int,
            {}
            assert(forall|d: int|
                0 <= d < 44735 ==> -2147483648 <= #[trigger] ((d - GRID_HALF_EXTENT) * (
                CHUNK_SIZE as i64)) <= 2147483647) by (nonlinear_arith)
                requires
                    GRID_HALF_EXTENT == 22366,
                    CHUNK_SIZE == 16,
            {}
        }
        Coordinates {
            x: ((digit_x - GRID_HALF_EXTENT) * (CHUNK_SIZE as i64)) as i32,
            y: ((digit_y - GRID_HALF_EXTENT) * (CHUNK_SIZE as i64)) as i32,
            z: ((digit_z - GRID_HALF_EXTENT) * (CHUNK_SIZE as i64)) as i32,
        }
    }

    /// The center of the chunk containing `coordinates`: its origin plus half
    /// the chunk size on each axis.
    pub fn get_chunk_center(coordinates: Coordinates) -> (c: Coordinates)
        requires
            in_supported_range(coordinates),
        ensures
            c.x == spec_chunk_origin(coordinates).x + CHUNK_SIZE / 2,
            c.y == spec_chunk_origin(coordinates).y + CHUNK_SIZE / 2,
            c.z == spec_chunk_origin(coordinates).z + CHUNK_SIZE / 2,
    {
        proof {
            lemma_linearization_roundtrip(coordinates);
        }
        let chunk_id = Self::domain_to_id(coordinates);
        let chunk_domain = Self::id_to_domain(chunk_id);
        Coordinates {
            x: chunk_domain.x + CHUNK_SIZE / 2,
            y: chunk_domain.y + CHUNK_SIZE / 2,
            z: chunk_domain.z + CHUNK_SIZE / 2,
        }
    }

    /// The chunk containing `coordinates`, if the registry holds one.
    pub fn get_chunk_at(&self, coordinates: Coordinates) -> (r: Option<&Chunk>)
        ensures
            match r {
                Some(chunk) => {
                    &&& self@.dom().contains(spec_domain_to_id(coordinates) as i64)
                    &&& *chunk == self@[spec_domain_to_id(coordinates) as i64]
                },
                None => !self@.dom().contains(spec_domain_to_id(coordinates) as i64),
            },
    {
        let chunk_id = Self::domain_to_id(coordinates);
        self.chunks.get(&chunk_id)
    }

    /// Insert a chunk for the coordinate's id only if none is present, so the
    /// registry never holds two chunks for one id.
    pub fn push_chunk_at(&mut self, coordinates: Coordinates, chunk: Chunk)
        requires
            chunk.wf(),
        ensures
            final(self)@ == if old(self)@.dom().contains(spec_domain_to_id(coordinates) as i64) {
                old(self)@
            } else {
                old(self)@.insert(spec_domain_to_id(coordinates) as i64, chunk)
            },
            old(self).wf() ==> final(self).wf(),
    {
        let chunk_id = Self::domain_to_id(coordinates);
        if !self.chunks.contains_key(&chunk_id) {
            self.chunks.insert(chunk_id, chunk);
            proof {
                if old(self).wf() {
                    assert forall|id: i64| self@.dom().contains(id) implies (
                    #[trigger] self@[id]).wf() by {
                        if id != chunk_id {
                            assert(old(self)@.dom().contains(id));
                        }
                    }
                }
            }
        }
    }

    /// Move the chunk for `coordinates` out of the registry, leaving no entry
    /// behind. Paired with [`Self::put_chunk_at`]: a pipeline stage borrows
    /// the chunk by value, works on it, and moves it back.
    pub fn take_chunk_at(&mut self, coordinates: Coordinates) -> (r: Option<Chunk>)
        ensures
            final(self)@ == old(self)@.remove(spec_domain_to_id(coordinates) as i64),
            match r {
                Some(chunk) => {
                    &&& old(self)@.dom().contains(spec_domain_to_id(coordinates) as i64)
                    &&& chunk == old(self)@[spec_domain_to_id(coordinates) as i64]
                },
                None => !old(self)@.dom().contains(spec_domain_to_id(coordinates) as i64),
            },
            old(self).wf() ==> final(self).wf(),
    {
        let chunk_id = Self::domain_to_id(coordinates);
        self.chunks.remove(&chunk_id)
    }

    /// Move a chunk back in under the coordinate's id, replacing any entry.
    pub fn put_chunk_at(&mut self, coordinates: Coordinates, chunk: Chunk)
        requires
            chunk.wf(),
        ensures
            final(self)@ == old(self)@.insert(spec_domain_to_id(coordinates) as i64, chunk),
            old(self).wf() ==> final(self).wf(),
    {
        let chunk_id = Self::domain_to_id(coordinates);
        self.chunks.insert(chunk_id, chunk);
        proof {
            if old(self).wf() {
                assert forall|id: i64| self@.dom().contains(id) implies (
                #[trigger] self@[id]).wf() by {
                    if id != chunk_id {
                        assert(old(self)@.dom().contains(id));
                    }
                }
            }
        }
    }

    /// The six face-adjacent chunks of the chunk containing `coordinates`, in
    /// the order +x, -x, +z, -z, +y, -y: each slot is exactly the registry
    /// lookup one chunk extent away along its axis.
    pub fn get_adjacent_chunks(&self, coordinates: Coordinates) -> (r: [Option<&Chunk>; 6])
        requires
            in_supported_range(coordinates),
            i32::MIN + CHUNK_SIZE <= coordinates.x <= i32::MAX - CHUNK_SIZE,
            i32::MIN + CHUNK_HEIGHT <= coordinates.y <= i32::MAX - CHUNK_HEIGHT,
            i32::MIN + CHUNK_SIZE <= coordinates.z <= i32::MAX - CHUNK_SIZE,
        ensures
            forall|i: int|
                0 <= i < 6 ==> spec_lookup_matches(
                    self@,
                    spec_adjacent_coordinate(coordinates, i),
                    #[trigger] r@[i],
                ),
    {
        let Coordinates { x, y, z } = coordinates;
        let r = [
            self.get_chunk_at(Coordinates { x: x + CHUNK_SIZE, y, z }),
            self.get_chunk_at(Coordinates { x: x - CHUNK_SIZE, y, z }),
            self.get_chunk_at(Coordinates { x, y, z: z + CHUNK_SIZE }),
            self.get_chunk_at(Coordinates { x, y, z: z - CHUNK_SIZE }),
            self.get_chunk_at(Coordinates { x, y: y + CHUNK_HEIGHT, z }),
            self.get_chunk_at(Coordinates { x, y: y - CHUNK_HEIGHT, z }),
        ];
        proof {
            assert forall|i: int| 0 <= i < 6 implies spec_lookup_matches(
                self@,
                spec_adjacent_coordinate(coordinates, i),
                #[trigger] r@[i],
            ) by {
                assert(spec_adjacent_coordinate(coordinates, 0) == (Coordinates {
                    x: (coordinates.x + CHUNK_SIZE) as i32,
                    y: coordinates.y,
                    z: coordinates.z,
                }));
            }
        }
        r
    }

    /// Number of chunks the registry holds.
    pub fn chunk_count(&self) -> (n: usize)
        ensures
            n == self@.dom().len(),
    {
        self.chunks.len()
    }

    /// Pre-size the map for a batch of insertions; the contents are
    /// untouched.
    pub fn reserve_chunks(&mut self, additional: usize)
        ensures
            final(self)@ == old(self)@,
    {
        self.chunks.reserve(additional);
    }
}

} // verus!
