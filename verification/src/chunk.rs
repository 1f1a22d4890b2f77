//! A chunk: a fixed-size 3D grid of voxels plus the state flags that drive the
//! lifecycle pipeline, a level-of-detail value and opaque handles to the mesh
//! asset and renderable entity that the embedding application manages.

use vstd::prelude::*;
use crate::coords::Coordinates;
use crate::voxel::Voxel;

verus! {

/// The faces of a voxel cube, in the order the mesher walks them.
#[derive(Debug, Clone, Copy, PartialEq, Eq, Structural)]
pub enum VoxelFace {
    Front,
    Back,
    Left,
    Right,
    Up,
    Down,
}

/// The independent state bits of a chunk's lifecycle.
#[derive(Debug, Clone, Copy, PartialEq, Eq, Structural)]
pub enum ChunkFlags {
    Generated,
    Dirty,
    Drawn,
    Busy,
    Meshed,
}

/// A set of [`ChunkFlags`], one explicit bit per flag.
#[derive(Debug, Clone, Copy, PartialEq, Eq, Structural)]
pub struct ChunkFlagSet {
    pub generated: bool,
    pub dirty: bool,
    pub drawn: bool,
    pub busy: bool,
    pub meshed: bool,
}

impl ChunkFlagSet {
    /// The set with every flag clear: a chunk's initial state.
    pub open spec fn spec_empty() -> ChunkFlagSet {
        ChunkFlagSet { generated: false, dirty: false, drawn: false, busy: false, meshed: false }
    }

    pub fn empty() -> (s: ChunkFlagSet)
        ensures
            s == ChunkFlagSet::spec_empty(),
    {
        ChunkFlagSet { generated: false, dirty: false, drawn: false, busy: false, meshed: false }
    }

    /// Membership of one flag in the set.
    pub open spec fn spec_contains(self, flag: ChunkFlags) -> bool {
        match flag {
            ChunkFlags::Generated => self.generated,
            ChunkFlags::Dirty => self.dirty,
            ChunkFlags::Drawn => self.drawn,
            ChunkFlags::Busy => self.busy,
            ChunkFlags::Meshed => self.meshed,
        }
    }

    /// The set with `flag` forced to `value` and every other flag unchanged.
    pub open spec fn spec_with(self, flag: ChunkFlags, value: bool) -> ChunkFlagSet {
        match flag {
            ChunkFlags::Generated => ChunkFlagSet { generated: value, ..self },
            ChunkFlags::Dirty => ChunkFlagSet { dirty: value, ..self },
            ChunkFlags::Drawn => ChunkFlagSet { drawn: value, ..self },
            ChunkFlags::Busy => ChunkFlagSet { busy: value, ..self },
            ChunkFlags::Meshed => ChunkFlagSet { meshed: value, ..self },
        }
    }

    /// The symmetric difference of two sets, flag by flag.
    pub open spec fn spec_xor(self, other: ChunkFlagSet) -> ChunkFlagSet {
        ChunkFlagSet {
            generated: self.generated != other.generated,
            dirty: self.dirty != other.dirty,
            drawn: self.drawn != other.drawn,
            busy: self.busy != other.busy,
            meshed: self.meshed != other.meshed,
        }
    }

    pub fn contains(&self, flag: ChunkFlags) -> (b: bool)
        ensures
            b == self.spec_contains(flag),
    {
        match flag {
            ChunkFlags::Generated => self.generated,
            ChunkFlags::Dirty => self.dirty,
            ChunkFlags::Drawn => self.drawn,
            ChunkFlags::Busy => self.busy,
            ChunkFlags::Meshed => self.meshed,
        }
    }

    pub fn set(&mut self, flag: ChunkFlags, value: bool)
        ensures
            *final(self) == old(self).spec_with(flag, value),
    {
        match flag {
            ChunkFlags::Generated => self.generated = value,
            ChunkFlags::Dirty => self.dirty = value,
            ChunkFlags::Drawn => self.drawn = value,
            ChunkFlags::Busy => self.busy = value,
            ChunkFlags::Meshed => self.meshed = value,
        }
    }

    pub fn xor(self, other: ChunkFlagSet) -> (s: ChunkFlagSet)
        ensures
            s == self.spec_xor(other),
    {
        ChunkFlagSet {
            generated: self.generated != other.generated,
            dirty: self.dirty != other.dirty,
            drawn: self.drawn != other.drawn,
            busy: self.busy != other.busy,
            meshed: self.meshed != other.meshed,
        }
    }
}

/// The size and shape of a chunk, fixed at construction.
#[derive(Debug, Clone, Copy, PartialEq, Eq, Structural)]
pub struct ChunkDimensions {
    pub width: u32,
    pub height: u32,
    pub depth: u32,
}

impl ChunkDimensions {
    /// Number of voxels the chunk holds.
    pub open spec fn spec_volume(self) -> int {
        self.width * self.height * self.depth
    }

    /// Dimensions are usable when each axis is non-trivial and the volume and
    /// the row-major index arithmetic fit in `u32`.
    pub open spec fn wf(self) -> bool {
        &&& self.width > 0
        &&& self.height > 0
        &&& self.depth > 0
        &&& self.spec_volume() <= u32::MAX
    }

    /// Row-major linear index, x fastest, then y, then z.
    pub open spec fn spec_index(self, x: int, y: int, z: int) -> int {
        x + y * self.width + z * self.width * self.height
    }

    /// Whether `(x, y, z)` addresses a voxel of the chunk.
    pub open spec fn in_bounds(self, x: int, y: int, z: int) -> bool {
        0 <= x < self.width && 0 <= y < self.height && 0 <= z < self.depth
    }
}

/// In-bounds coordinates always index inside the voxel buffer.
pub proof fn lemma_index_in_volume(dims: ChunkDimensions, x: int, y: int, z: int)
    requires
        dims.wf(),
        dims.in_bounds(x, y, z),
    ensures
        0 <= dims.spec_index(x, y, z) < dims.spec_volume(),
{
    let w = dims.width as int;
    let h = dims.height as int;
    let d = dims.depth as int;
    assert(0 <= x + y * w + z * w * h < w * h * d) by (nonlinear_arith)
        requires
            0 <= x < w,
            0 <= y < h,
            0 <= z < d,
    {}
}

/// A fixed-size cuboid region of voxels: the unit of generation, meshing and
/// streaming.
#[derive(Debug, Clone)]
pub struct Chunk {
    pub voxels: Vec<Voxel>,
    pub dimensions: ChunkDimensions,
    /// Opaque handle to the most recently built mesh asset, reused across
    /// rebuilds so the embedding application can replace the asset in place.
    pub mesh: Option<u64>,
    pub flags: ChunkFlagSet,
    /// Opaque handle to the renderable entity, created lazily and reused
    /// across show/hide cycles.
    pub entity: Option<u64>,
    pub world_position: Coordinates,
    /// Level of detail: 0 is full detail, each step halves the effective
    /// resolution per axis.
    pub lod: u32,
}

impl Chunk {
    /// Structural invariant: the buffer matches the dimensions, a `Meshed`
    /// chunk has a mesh handle, and a `Drawn` chunk has an entity handle.
    pub open spec fn wf(self) -> bool {
        &&& self.dimensions.wf()
        &&& self.voxels.len() == self.dimensions.spec_volume()
        &&& (self.flags.meshed ==> self.mesh is Some)
        &&& (self.flags.drawn ==> self.entity is Some)
    }

    /// A fresh chunk: default voxels, all flags clear, full detail, no mesh
    /// and no entity yet.
    pub fn new(width: u32, height: u32, depth: u32, world_position: Coordinates) -> (c: Chunk)
        requires
            width > 0,
            height > 0,
            depth > 0,
            width * height * depth <= u32::MAX,
            width * height * depth <= usize::MAX,
        ensures
            c.wf(),
            c.dimensions == (ChunkDimensions { width, height, depth }),
            c.voxels@.len() == width * height * depth,
            forall|i: int| 0 <= i < c.voxels@.len() ==> c.voxels@[i] == Voxel::spec_default(),
            c.flags == ChunkFlagSet::spec_empty(),
            c.mesh is None,
            c.entity is None,
            c.world_position == world_position,
            c.lod == 0,
    {
        let dimensions = ChunkDimensions { width, height, depth };
        assert(width * height <= u32::MAX) by (nonlinear_arith)
            requires
                width * height * depth <= u32::MAX,
                depth > 0,
                width >= 0,
                height >= 0,
        {}
        let num_voxels = width * height * depth;
        let mut voxels: Vec<Voxel> = Vec::new();
        let mut i: u32 = 0;
        while i < num_voxels
            invariant
                i <= num_voxels,
                num_voxels <= usize::MAX,
                voxels@.len() == i,
                forall|j: int| 0 <= j < i ==> voxels@[j] == Voxel::spec_default(),
            decreases num_voxels - i,
        {
            voxels.push(Voxel::default());
            i = i + 1;
        }
        assert(dimensions.spec_volume() == num_voxels) by (nonlinear_arith)
            requires
                dimensions == (ChunkDimensions { width, height, depth }),
                num_voxels == width * height * depth,
        {}
        Chunk {
            voxels,
            dimensions,
            world_position,
            mesh: None,
            lod: 0,
            entity: None,
            flags: ChunkFlagSet::empty(),
        }
    }

    /// Row-major linear index of an in-bounds voxel coordinate.
    pub fn get_index(&self, x: u32, y: u32, z: u32) -> (index: u32)
        requires
            self.wf(),
            self.dimensions.in_bounds(x as int, y as int, z as int),
        ensures
            index == self.dimensions.spec_index(x as int, y as int, z as int),
            0 <= index < self.voxels@.len(),
    {
        proof {
            lemma_index_in_volume(self.dimensions, x as int, y as int, z as int);
        }
        let w = self.dimensions.width;
        let h = self.dimensions.height;
        let d = self.dimensions.depth;
        assert(y * w <= u32::MAX && z * w <= u32::MAX && z * w * h <= u32::MAX && x + y * w + z * w
            * h <= u32::MAX) by (nonlinear_arith)
            requires
                0 <= x < w,
                0 <= y < h,
                0 <= z < d,
                w * h * d <= u32::MAX,
        {}
        x + y * w + z * w * h
    }

    /// The voxel at `(x, y, z)`, or `None` when the coordinate is out of
    /// bounds.
    pub fn get_voxel(&self, x: u32, y: u32, z: u32) -> (v: Option<&Voxel>)
        requires
            self.wf(),
        ensures
            match v {
                Some(voxel) => {
                    &&& self.dimensions.in_bounds(x as int, y as int, z as int)
                    &&& *voxel == self.voxels@[self.dimensions.spec_index(
                        x as int,
                        y as int,
                        z as int,
                    )]
                },
                None => !self.dimensions.in_bounds(x as int, y as int, z as int),
            },
    {
        if x < self.dimensions.width && y < self.dimensions.height && z < self.dimensions.depth {
            let index = self.get_index(x, y, z);
            Some(&self.voxels[index as usize])
        } else {
            None
        }
    }

    pub fn get_voxels(&self) -> (v: &Vec<Voxel>)
        ensures
            v == &self.voxels,
    {
        &self.voxels
    }

    /// Overwrite the voxel at `(x, y, z)`; out-of-bounds writes are ignored.
    /// Flags are untouched: the lifecycle transitions decide when content
    /// changes make the chunk `Dirty`.
    pub fn set_voxel(&mut self, x: u32, y: u32, z: u32, voxel: Voxel)
        requires
            old(self).wf(),
        ensures
            final(self).wf(),
            final(self).dimensions == old(self).dimensions,
            final(self).flags == old(self).flags,
            final(self).mesh == old(self).mesh,
            final(self).entity == old(self).entity,
            final(self).world_position == old(self).world_position,
            final(self).lod == old(self).lod,
            if old(self).dimensions.in_bounds(x as int, y as int, z as int) {
                final(self).voxels@ == old(self).voxels@.update(
                    old(self).dimensions.spec_index(x as int, y as int, z as int),
                    voxel,
                )
            } else {
                final(self).voxels@ == old(self).voxels@
            },
    {
        if x < self.dimensions.width && y < self.dimensions.height && z < self.dimensions.depth {
            let index = self.get_index(x, y, z);
            self.voxels[index as usize] = voxel;
        }
    }

    /// Replace the whole voxel buffer, as a completed generation task does.
    pub fn set_voxels(&mut self, voxels: Vec<Voxel>)
        requires
            old(self).wf(),
            voxels@.len() == old(self).dimensions.spec_volume(),
        ensures
            final(self).wf(),
            final(self).voxels == voxels,
            final(self).dimensions == old(self).dimensions,
            final(self).flags == old(self).flags,
            final(self).mesh == old(self).mesh,
            final(self).entity == old(self).entity,
            final(self).world_position == old(self).world_position,
            final(self).lod == old(self).lod,
    {
        self.voxels = voxels;
    }

    pub fn get_dimensions(&self) -> (d: &ChunkDimensions)
        ensures
            d == &self.dimensions,
    {
        &self.dimensions
    }

    /// Adopt a mesh handle; the chunk is `Meshed` from here on.
    pub fn set_mesh(&mut self, mesh: u64)
        ensures
            final(self).mesh == Some(mesh),
            final(self).flags == old(self).flags.spec_with(ChunkFlags::Meshed, true),
            final(self).voxels == old(self).voxels,
            final(self).dimensions == old(self).dimensions,
            final(self).entity == old(self).entity,
            final(self).world_position == old(self).world_position,
            final(self).lod == old(self).lod,
            old(self).wf() ==> final(self).wf(),
    {
        self.mesh = Some(mesh);
        self.flags.set(ChunkFlags::Meshed, true);
    }

    pub fn get_mesh(&self) -> (m: Option<u64>)
        ensures
            m == self.mesh,
    {
        self.mesh
    }

    pub fn get_entity(&self) -> (e: Option<u64>)
        ensures
            e == self.entity,
    {
        self.entity
    }

    pub fn set_entity(&mut self, entity: u64)
        ensures
            final(self).entity == Some(entity),
            final(self).voxels == old(self).voxels,
            final(self).dimensions == old(self).dimensions,
            final(self).flags == old(self).flags,
            final(self).mesh == old(self).mesh,
            final(self).world_position == old(self).world_position,
            final(self).lod == old(self).lod,
            old(self).wf() ==> final(self).wf(),
    {
        self.entity = Some(entity);
    }

    pub fn is_generated(&self) -> (b: bool)
        ensures
            b == self.flags.generated,
    {
        self.flags.generated
    }

    pub fn is_dirty(&self) -> (b: bool)
        ensures
            b == self.flags.dirty,
    {
        self.flags.dirty
    }

    pub fn is_busy(&self) -> (b: bool)
        ensures
            b == self.flags.busy,
    {
        self.flags.busy
    }

    pub fn is_drawn(&self) -> (b: bool)
        ensures
            b == self.flags.drawn,
    {
        self.flags.drawn
    }

    pub fn is_meshed(&self) -> (b: bool)
        ensures
            b == self.flags.meshed,
    {
        self.flags.meshed
    }

    /// Force one flag to a value, leaving the rest of the chunk unchanged.
    pub fn set_flag(&mut self, flag: ChunkFlags, value: bool)
        ensures
            final(self).flags == old(self).flags.spec_with(flag, value),
            final(self).voxels == old(self).voxels,
            final(self).dimensions == old(self).dimensions,
            final(self).mesh == old(self).mesh,
            final(self).entity == old(self).entity,
            final(self).world_position == old(self).world_position,
            final(self).lod == old(self).lod,
    {
        self.flags.set(flag, value);
    }

    pub fn set_generated(&mut self, generated: bool)
        ensures
            final(self).flags == old(self).flags.spec_with(ChunkFlags::Generated, generated),
            final(self).voxels == old(self).voxels,
            final(self).dimensions == old(self).dimensions,
            final(self).mesh == old(self).mesh,
            final(self).entity == old(self).entity,
            final(self).world_position == old(self).world_position,
            final(self).lod == old(self).lod,
    {
        self.set_flag(ChunkFlags::Generated, generated);
    }

    pub fn set_dirty(&mut self, dirty: bool)
        ensures
            final(self).flags == old(self).flags.spec_with(ChunkFlags::Dirty, dirty),
            final(self).voxels == old(self).voxels,
            final(self).dimensions == old(self).dimensions,
            final(self).mesh == old(self).mesh,
            final(self).entity == old(self).entity,
            final(self).world_position == old(self).world_position,
            final(self).lod == old(self).lod,
    {
        self.set_flag(ChunkFlags::Dirty, dirty);
    }

    pub fn set_busy(&mut self, busy: bool)
        ensures
            final(self).flags == old(self).flags.spec_with(ChunkFlags::Busy, busy),
            final(self).voxels == old(self).voxels,
            final(self).dimensions == old(self).dimensions,
            final(self).mesh == old(self).mesh,
            final(self).entity == old(self).entity,
            final(self).world_position == old(self).world_position,
            final(self).lod == old(self).lod,
    {
        self.set_flag(ChunkFlags::Busy, busy);
    }

    pub fn set_drawn(&mut self, drawn: bool)
        ensures
            final(self).flags == old(self).flags.spec_with(ChunkFlags::Drawn, drawn),
            final(self).voxels == old(self).voxels,
            final(self).dimensions == old(self).dimensions,
            final(self).mesh == old(self).mesh,
            final(self).entity == old(self).entity,
            final(self).world_position == old(self).world_position,
            final(self).lod == old(self).lod,
    {
        self.set_flag(ChunkFlags::Drawn, drawn);
    }

    /// Toggle every flag named in `mask`.
    pub fn apply_mask(&mut self, mask: ChunkFlagSet)
        ensures
            final(self).flags == old(self).flags.spec_xor(mask),
            final(self).voxels == old(self).voxels,
            final(self).dimensions == old(self).dimensions,
            final(self).mesh == old(self).mesh,
            final(self).entity == old(self).entity,
            final(self).world_position == old(self).world_position,
            final(self).lod == old(self).lod,
    {
        self.flags = self.flags.xor(mask);
    }

    pub fn get_flags(&self) -> (f: ChunkFlagSet)
        ensures
            f == self.flags,
    {
        self.flags
    }

    pub fn set_lod(&mut self, lod: u32)
        ensures
            final(self).lod == lod,
            final(self).voxels == old(self).voxels,
            final(self).dimensions == old(self).dimensions,
            final(self).flags == old(self).flags,
            final(self).mesh == old(self).mesh,
            final(self).entity == old(self).entity,
            final(self).world_position == old(self).world_position,
    {
        self.lod = lod;
    }

    pub fn get_lod(&self) -> (lod: u32)
        ensures
            lod == self.lod,
    {
        self.lod
    }
}

} // verus!
