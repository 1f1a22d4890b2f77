//! Procedural terrain fill: a pure function from noise samples, generation
//! settings, a chunk's world offset and its dimensions to a full voxel
//! buffer.
//!
//! The coherent-noise sampling itself happens outside this crate (the
//! embedding application samples its noise source once per voxel per octave,
//! in fixed point); everything downstream of the samples — octave layering,
//! amplitude scaling, the vertical bias, the solidity threshold and the
//! color mapping — is computed here, in exact fixed-point arithmetic, so the
//! whole fill is a machine-checked function of its inputs and generation is
//! reproducible by construction.

use vstd::prelude::*;
use crate::chunk::ChunkDimensions;
use crate::coords::Coordinates;
use crate::fixed::{clamp_i64, div_floor_i64, isqrt_u64, sqrt_floor, spec_clamp, FP_ONE};
use crate::voxel::{Voxel, VoxelColor};

verus! {

/// Darkening offset of the color channels: 0.3 in fixed point.
pub const DARK_FACTOR_FP: i64 = 19660;

/// Multiplier applied to the heat before the channel mapping.
pub const HEAT_SENSITIVITY: i64 = 5;

/// Vertical range over which the height tint saturates, in voxels.
pub const HEIGHT_RANGE: i64 = 100;

/// Strength of the vertical bias added to the noise value.
pub const HEIGHT_BIAS: i64 = 4;

/// Noise-shaping parameters, all fixed point except the octave count.
#[derive(Debug, Clone, Copy, PartialEq, Eq, Structural)]
pub struct GenerationSettings {
    pub frequency_scale: i64,
    pub amplitude_scale: i64,
    pub threshold: i64,
    pub octaves: u32,
    pub persistence: i64,
}

impl GenerationSettings {
    /// Ranges under which every intermediate of the fill fits in an `i64`.
    pub open spec fn valid(self) -> bool {
        &&& 0 <= self.frequency_scale <= 1000 * FP_ONE
        &&& -1000 * FP_ONE <= self.amplitude_scale <= 1000 * FP_ONE
        &&& -1000 * FP_ONE <= self.threshold <= 1000 * FP_ONE
        &&& 0 < self.octaves <= 16
        &&& 0 <= self.persistence <= FP_ONE
    }
}

/// Per-octave amplitude: `persistence^o` in fixed point, rounded down at each
/// step.
pub open spec fn spec_amplitude(persistence: int, o: nat) -> int
    decreases o,
{
    if o == 0 {
        FP_ONE as int
    } else {
        spec_amplitude(persistence, (o - 1) as nat) * persistence / (FP_ONE as int)
    }
}

pub proof fn lemma_amplitude_bounds(persistence: int, o: nat)
    requires
        0 <= persistence <= FP_ONE as int,
    ensures
        0 <= spec_amplitude(persistence, o) <= FP_ONE as int,
    decreases o,
{
    if o > 0 {
        lemma_amplitude_bounds(persistence, (o - 1) as nat);
        let prev = spec_amplitude(persistence, (o - 1) as nat);
        assert(0 <= prev * persistence <= (FP_ONE as int) * (FP_ONE as int)) by (nonlinear_arith)
            requires
                0 <= prev <= FP_ONE as int,
                0 <= persistence <= FP_ONE as int,
        {}
        assert(0 <= prev * persistence / (FP_ONE as int) <= FP_ONE as int) by (nonlinear_arith)
            requires
                0 <= prev * persistence <= (FP_ONE as int) * (FP_ONE as int),
        {}
    }
}

/// One octave's contribution at one voxel: the octave amplitude times the
/// sample stored for that octave and voxel, in fixed point.
pub open spec fn spec_octave_term(
    samples: Seq<i64>,
    volume: int,
    idx: int,
    persistence: int,
    o: nat,
) -> int {
    spec_amplitude(persistence, o) * samples[o * volume + idx] / (FP_ONE as int)
}

/// Sum of the first `count` octave contributions at one voxel.
pub open spec fn spec_octave_sum(
    samples: Seq<i64>,
    volume: int,
    idx: int,
    persistence: int,
    count: nat,
) -> int
    decreases count,
{
    if count == 0 {
        0
    } else {
        spec_octave_sum(samples, volume, idx, persistence, (count - 1) as nat) + spec_octave_term(
            samples,
            volume,
            idx,
            persistence,
            (count - 1) as nat,
        )
    }
}

/// Every sample lies within one fixed-point unit of zero, as coherent noise
/// does.
pub open spec fn samples_in_range(samples: Seq<i64>) -> bool {
    forall|i: int|
        0 <= i < samples.len() ==> -(FP_ONE as int) <= #[trigger] samples[i] <= FP_ONE as int
}

pub proof fn lemma_octave_sum_bounds(
    samples: Seq<i64>,
    volume: int,
    idx: int,
    persistence: int,
    count: nat,
)
    requires
        0 <= persistence <= FP_ONE as int,
        samples_in_range(samples),
        volume > 0,
        0 <= idx < volume,
        count * volume <= samples.len(),
    ensures
        -(count * FP_ONE) <= spec_octave_sum(samples, volume, idx, persistence, count) <= count
            * FP_ONE,
    decreases count,
{
    if count > 0 {
        let o = (count - 1) as nat;
        assert(o * volume <= samples.len()) by (nonlinear_arith)
            requires
                count * volume <= samples.len(),
                volume > 0,
                o == count - 1,
                count >= 1,
        {}
        lemma_octave_sum_bounds(samples, volume, idx, persistence, o);
        lemma_amplitude_bounds(persistence, o);
        let amp = spec_amplitude(persistence, o);
        assert(0 <= o * volume + idx < samples.len()) by (nonlinear_arith)
            requires
                0 <= idx < volume,
                count * volume <= samples.len(),
                o == count - 1,
                count >= 1,
        {}
        let s = samples[o * volume + idx] as int;
        assert(-((FP_ONE as int) * (FP_ONE as int)) <= amp * s <= (FP_ONE as int) * (
        FP_ONE as int)) by (nonlinear_arith)
            requires
                0 <= amp <= FP_ONE as int,
                -(FP_ONE as int) <= s <= FP_ONE as int,
        {}
        assert(-(FP_ONE as int) <= amp * s / (FP_ONE as int) <= FP_ONE as int)
            by (nonlinear_arith)
            requires
                -((FP_ONE as int) * (FP_ONE as int)) <= amp * s <= (FP_ONE as int) * (
                FP_ONE as int),
        {}
        assert((count - 1) * FP_ONE + FP_ONE == count * FP_ONE) by (nonlinear_arith);
    }
}

/// The combined noise value at one voxel: layered octaves scaled by the
/// amplitude, plus a vertical bias that grows from 0 at the chunk floor to
/// `HEIGHT_BIAS` at the top.
pub open spec fn spec_noise_value(
    settings: GenerationSettings,
    samples: Seq<i64>,
    volume: int,
    height: int,
    idx: int,
    y: int,
) -> int {
    spec_octave_sum(samples, volume, idx, settings.persistence as int, settings.octaves as nat) * (
    settings.amplitude_scale as int) / (FP_ONE as int) + y * (HEIGHT_BIAS as int) * (FP_ONE as int)
        / height
}

/// Normalized excess of the noise value over the threshold, clamped to
/// `[0, 1]` in fixed point; the denominator is clamped away from zero.
pub open spec fn spec_heat(settings: GenerationSettings, value: int) -> int {
    let denom = if settings.amplitude_scale - settings.threshold < 1 {
        1int
    } else {
        settings.amplitude_scale as int - settings.threshold as int
    };
    spec_clamp((value - settings.threshold) * (FP_ONE as int) / denom, 0, FP_ONE as int)
}

/// One color channel: a square-root response curve compressed away from
/// black by the darkening factor. The argument is clamped to `[0, 1]`.
pub open spec fn spec_channel(m: int) -> int {
    let mc = spec_clamp(m, 0, FP_ONE as int);
    sqrt_floor((mc * (FP_ONE as int)) as nat) * (FP_ONE as int - DARK_FACTOR_FP as int) / (
    FP_ONE as int) + DARK_FACTOR_FP as int
}

/// Heat tint: hot voxels go green, cold voxels red, in a continuous map.
pub open spec fn spec_heat_color(heat: int) -> VoxelColor {
    let mh = spec_clamp(heat * (HEAT_SENSITIVITY as int), 0, FP_ONE as int);
    VoxelColor {
        r: spec_channel(FP_ONE as int - mh) as i64,
        g: spec_channel(mh) as i64,
        b: spec_channel(mh - FP_ONE as int) as i64,
        a: FP_ONE,
    }
}

/// Height tint: driven by the frequency-scaled absolute height of the voxel,
/// normalized over `HEIGHT_RANGE`.
pub open spec fn spec_height_color(settings: GenerationSettings, world_y: int, y: int) -> VoxelColor {
    let hn = spec_clamp(
        (settings.frequency_scale as int) * (world_y + y) / (HEIGHT_RANGE as int),
        0,
        FP_ONE as int,
    );
    VoxelColor {
        r: spec_channel(FP_ONE as int - hn) as i64,
        g: spec_channel(hn) as i64,
        b: spec_channel(hn - FP_ONE as int) as i64,
        a: FP_ONE,
    }
}

/// The voxel generated at linear index `idx`: solid with a combined height
/// and heat tint when the noise value exceeds the threshold, the default
/// voxel otherwise.
pub open spec fn spec_generated_voxel(
    settings: GenerationSettings,
    world_position: Coordinates,
    dims: ChunkDimensions,
    samples: Seq<i64>,
    idx: int,
) -> Voxel {
    let w = dims.width as int;
    let h = dims.height as int;
    let volume = dims.spec_volume();
    let y = (idx % (w * h)) / w;
    let value = spec_noise_value(settings, samples, volume, h, idx, y);
    if value > settings.threshold as int {
        let heat = spec_heat(settings, value);
        let color_h = spec_height_color(settings, world_position.y as int, y);
        let color_t = spec_heat_color(heat);
        Voxel {
            color: VoxelColor {
                r: (color_h.r + color_t.r) as i64,
                g: (color_h.g + color_t.g) as i64,
                b: (color_h.b + color_t.b) as i64,
                a: (color_h.a + color_t.a) as i64,
            },
            is_solid: true,
            size: FP_ONE,
        }
    } else {
        Voxel::spec_default()
    }
}

/// The full generated buffer, voxel by voxel.
pub open spec fn spec_generate(
    settings: GenerationSettings,
    world_position: Coordinates,
    dims: ChunkDimensions,
    samples: Seq<i64>,
) -> Seq<Voxel> {
    Seq::new(
        dims.spec_volume() as nat,
        |idx: int| spec_generated_voxel(settings, world_position, dims, samples, idx),
    )
}

/// Generation is deterministic: for fixed settings, world offset, dimensions
/// and noise samples, two generated buffers are identical.
pub proof fn lemma_generation_deterministic(
    first: Seq<Voxel>,
    second: Seq<Voxel>,
    settings: GenerationSettings,
    world_position: Coordinates,
    dims: ChunkDimensions,
    samples: Seq<i64>,
)
    requires
        first == spec_generate(settings, world_position, dims, samples),
        second == spec_generate(settings, world_position, dims, samples),
    ensures
        first == second,
{
}

/// One color channel in fixed point.
fn channel(m: i64) -> (r: i64)
    ensures
        r == spec_channel(m as int),
        DARK_FACTOR_FP <= r <= FP_ONE,
{
    let mc = clamp_i64(m, 0, FP_ONE);
    let root = isqrt_u64((mc * FP_ONE) as u64);
    proof {
        assert(((mc * FP_ONE) as u64) * ((mc * FP_ONE) as u64) >= 0);
        assert(root as int <= FP_ONE as int) by (nonlinear_arith)
            requires
                (root as int) * (root as int) <= mc * FP_ONE,
                0 <= mc <= FP_ONE as int,
                root >= 0,
        {}
        assert(0 <= (root as int) * ((FP_ONE - DARK_FACTOR_FP) as int) <= (FP_ONE as int) * (
        FP_ONE as int)) by (nonlinear_arith)
            requires
                0 <= root as int <= FP_ONE as int,
        {}
        assert((root as int) * ((FP_ONE - DARK_FACTOR_FP) as int) / (FP_ONE as int) <= FP_ONE
            - DARK_FACTOR_FP) by (nonlinear_arith)
            requires
                0 <= (root as int) * ((FP_ONE - DARK_FACTOR_FP) as int) <= (FP_ONE as int) * ((
                FP_ONE - DARK_FACTOR_FP) as int),
        {}
    }
    let scaled = (root as i64) * (FP_ONE - DARK_FACTOR_FP) / FP_ONE;
    scaled + DARK_FACTOR_FP
}

/// Heat tint of a voxel.
fn heat_color(heat: i64) -> (c: VoxelColor)
    requires
        0 <= heat <= FP_ONE,
    ensures
        c == spec_heat_color(heat as int),
        DARK_FACTOR_FP <= c.r <= FP_ONE,
        DARK_FACTOR_FP <= c.g <= FP_ONE,
        DARK_FACTOR_FP <= c.b <= FP_ONE,
        c.a == FP_ONE,
{
    let mh = clamp_i64(heat * HEAT_SENSITIVITY, 0, FP_ONE);
    VoxelColor {
        r: channel(FP_ONE - mh),
        g: channel(mh),
        b: channel(mh - FP_ONE),
        a: FP_ONE,
    }
}

/// Height tint of a voxel.
fn height_color(settings: &GenerationSettings, world_y: i64, y: i64) -> (c: VoxelColor)
    requires
        settings.valid(),
        -0x200000000 <= world_y + y <= 0x200000000,
    ensures
        c == spec_height_color(*settings, world_y as int, y as int),
        DARK_FACTOR_FP <= c.r <= FP_ONE,
        DARK_FACTOR_FP <= c.g <= FP_ONE,
        DARK_FACTOR_FP <= c.b <= FP_ONE,
        c.a == FP_ONE,
{
    proof {
        assert(-0x7000000000000000 <= settings.frequency_scale * (world_y + y)
            <= 0x7000000000000000) by (nonlinear_arith)
            requires
                0 <= settings.frequency_scale <= 1000 * FP_ONE,
                -0x200000000 <= world_y + y <= 0x200000000,
        {}
    }
    let hn = clamp_i64(
        div_floor_i64(settings.frequency_scale * (world_y + y), HEIGHT_RANGE),
        0,
        FP_ONE,
    );
    VoxelColor {
        r: channel(FP_ONE - hn),
        g: channel(hn),
        b: channel(hn - FP_ONE),
        a: FP_ONE,
    }
}

/// Layered octave sum at one voxel.
fn octave_sum(samples: &Vec<i64>, volume: usize, idx: usize, settings: &GenerationSettings) -> (acc:
    i64)
    requires
        settings.valid(),
        samples_in_range(samples@),
        volume > 0,
        idx < volume,
        settings.octaves * volume == samples@.len(),
    ensures
        acc == spec_octave_sum(
            samples@,
            volume as int,
            idx as int,
            settings.persistence as int,
            settings.octaves as nat,
        ),
        -(settings.octaves * FP_ONE) <= acc <= settings.octaves * FP_ONE,
{
    let mut acc: i64 = 0;
    let mut amp: i64 = FP_ONE;
    let mut o: u32 = 0;
    let octaves = settings.octaves;
    let persistence = settings.persistence;
    let total = samples.len();
    while o < octaves
        invariant
            total == samples@.len(),
            settings.valid(),
            samples_in_range(samples@),
            volume > 0,
            idx < volume,
            octaves == settings.octaves,
            persistence == settings.persistence,
            settings.octaves * volume == samples@.len(),
            o <= octaves,
            amp == spec_amplitude(persistence as int, o as nat),
            0 <= amp <= FP_ONE,
            acc == spec_octave_sum(
                samples@,
                volume as int,
                idx as int,
                persistence as int,
                o as nat,
            ),
            -(o * FP_ONE) <= acc <= o * FP_ONE,
        decreases octaves - o,
    {
        proof {
            assert(o * volume + idx < samples@.len() && 0 <= (o as int) * (volume as int) + idx)
                by (nonlinear_arith)
                requires
                    0 <= idx < volume,
                    (octaves as int) * (volume as int) == samples@.len(),
                    0 <= o < octaves,
            {}
            assert(samples@.len() <= usize::MAX);
        }
        let sample_index = (o as usize) * volume + idx;
        let s = samples[sample_index];
        proof {
            assert(-((FP_ONE as int) * (FP_ONE as int)) <= (amp as int) * (s as int) <= (
            FP_ONE as int) * (FP_ONE as int)) by (nonlinear_arith)
                requires
                    0 <= amp <= FP_ONE as int,
                    -(FP_ONE as int) <= s <= FP_ONE as int,
            {}
        }
        let term = div_floor_i64(amp * s, FP_ONE);
        proof {
            assert(-(FP_ONE as int) <= (amp as int) * (s as int) / (FP_ONE as int)
                <= FP_ONE as int) by (nonlinear_arith)
                requires
                    -((FP_ONE as int) * (FP_ONE as int)) <= (amp as int) * (s as int) <= (
                    FP_ONE as int) * (FP_ONE as int),
            {}
            assert((o + 1) * (FP_ONE as int) == o * FP_ONE + FP_ONE) by (nonlinear_arith);
            assert(0 <= (amp as int) * (persistence as int) <= (FP_ONE as int) * (FP_ONE as int))
                by (nonlinear_arith)
                requires
                    0 <= amp <= FP_ONE as int,
                    0 <= persistence <= FP_ONE as int,
            {}
            assert(0 <= (amp as int) * (persistence as int) / (FP_ONE as int) <= FP_ONE as int)
                by (nonlinear_arith)
                requires
                    0 <= (amp as int) * (persistence as int) <= (FP_ONE as int) * (FP_ONE as int),
            {}
        }
        acc = acc + term;
        amp = div_floor_i64(amp * persistence, FP_ONE);
        o = o + 1;
    }
    proof {
        lemma_octave_sum_bounds(
            samples@,
            volume as int,
            idx as int,
            persistence as int,
            octaves as nat,
        );
    }
    acc
}

/// Fill a voxel buffer from pre-sampled noise: one fixed-point sample per
/// octave per voxel, octave-major (`samples[o * volume + idx]`).
///
/// Pure and reentrant: the result is an exact function of the arguments, so
/// identical settings, offset, dimensions and samples always reproduce an
/// identical buffer.
pub fn generate_voxels(
    settings: &GenerationSettings,
    world_position: Coordinates,
    dims: ChunkDimensions,
    samples: &Vec<i64>,
) -> (voxels: Vec<Voxel>)
    requires
        settings.valid(),
        dims.wf(),
        samples_in_range(samples@),
        settings.octaves * dims.spec_volume() == samples@.len(),
        dims.spec_volume() <= usize::MAX,
    ensures
        voxels@ == spec_generate(*settings, world_position, dims, samples@),
        voxels@.len() == dims.spec_volume(),
{
    let w = dims.width as usize;
    let h = dims.height as usize;
    let d = dims.depth as usize;
    proof {
        assert(w * h <= u32::MAX && (w * h) * d == dims.spec_volume() && w * h > 0)
            by (nonlinear_arith)
            requires
                w == dims.width,
                h == dims.height,
                d == dims.depth,
                dims.wf(),
        {}
    }
    let layer = w * h;
    let volume = layer * d;
    let mut voxels: Vec<Voxel> = Vec::new();
    let mut idx: usize = 0;
    while idx < volume
        invariant
            settings.valid(),
            dims.wf(),
            samples_in_range(samples@),
            settings.octaves * dims.spec_volume() == samples@.len(),
            w == dims.width,
            h == dims.height,
            d == dims.depth,
            layer == w * h,
            volume == dims.spec_volume(),
            idx <= volume,
            voxels@.len() == idx,
            forall|i: int|
                0 <= i < idx ==> voxels@[i] == spec_generated_voxel(
                    *settings,
                    world_position,
                    dims,
                    samples@,
                    i,
                ),
        decreases volume - idx,
    {
        let y = (idx % layer) / w;
        proof {
            vstd::arithmetic::div_mod::lemma_mod_bound(idx as int, layer as int);
            vstd::arithmetic::div_mod::lemma_div_pos_is_pos(idx as int % (layer as int), w as int);
            assert((idx as int % (layer as int)) / (w as int) < h) by (nonlinear_arith)
                requires
                    0 <= idx as int % (layer as int) < layer as int,
                    layer as int == (w as int) * (h as int),
                    w > 0,
                    h > 0,
            {}
        }
        let value_base = octave_sum(samples, volume, idx, settings);
        proof {
            assert(-(16 * FP_ONE * 1000 * FP_ONE) <= (value_base as int)
                * (settings.amplitude_scale as int) <= 16 * FP_ONE * 1000 * FP_ONE)
                by (nonlinear_arith)
                requires
                    -(16 * (FP_ONE as int)) <= value_base as int <= 16 * (FP_ONE as int),
                    -(1000 * (FP_ONE as int)) <= settings.amplitude_scale as int <= 1000 * (
                    FP_ONE as int),
            {}
            assert(-(16 * 1000 * (FP_ONE as int)) <= (value_base as int)
                * (settings.amplitude_scale as int) / (FP_ONE as int) <= 16 * 1000 * (
            FP_ONE as int)) by (nonlinear_arith)
                requires
                    -(16 * (FP_ONE as int) * 1000 * (FP_ONE as int)) <= (value_base as int) * (
                    settings.amplitude_scale as int) <= 16 * (FP_ONE as int) * 1000 * (
                    FP_ONE as int),
            {}
            let hh = h as int;
            let cap = 4 * (FP_ONE as int);
            assert(0 <= (y as int) * (HEIGHT_BIAS as int) * (FP_ONE as int) <= hh * cap)
                by (nonlinear_arith)
                requires
                    0 <= y < hh,
                    hh > 0,
                    cap == 4 * (FP_ONE as int),
            {}
            vstd::arithmetic::div_mod::lemma_div_pos_is_pos(
                (y as int) * (HEIGHT_BIAS as int) * (FP_ONE as int),
                hh,
            );
            vstd::arithmetic::div_mod::lemma_div_is_ordered(
                (y as int) * (HEIGHT_BIAS as int) * (FP_ONE as int),
                hh * cap,
                hh,
            );
            vstd::arithmetic::div_mod::lemma_div_multiples_vanish(cap, hh);
            assert(0 <= (y as int) * (HEIGHT_BIAS as int) * (FP_ONE as int) / hh <= cap);
        }
        let scaled = div_floor_i64(value_base * settings.amplitude_scale, FP_ONE);
        let bias = ((y as i64) * HEIGHT_BIAS * FP_ONE) / (h as i64);
        let value = scaled + bias;
        let voxel = if value > settings.threshold {
            let denom_raw = settings.amplitude_scale - settings.threshold;
            let denom = if denom_raw < 1 {
                1
            } else {
                denom_raw
            };
            proof {
                assert(0 <= (value - settings.threshold) * (FP_ONE as int)
                    <= 0x7fffffffffffffff) by (nonlinear_arith)
                    requires
                        0 < value - settings.threshold <= 34 * 1000 * (FP_ONE as int),
                {}
            }
            let heat = clamp_i64((value - settings.threshold) * FP_ONE / denom, 0, FP_ONE);
            let color_h = height_color(settings, world_position.y as i64, y as i64);
            let color_t = heat_color(heat);
            proof {
                assert(DARK_FACTOR_FP * 2 <= color_h.r + color_t.r <= 2 * FP_ONE);
            }
            Voxel {
                color: VoxelColor {
                    r: color_h.r + color_t.r,
                    g: color_h.g + color_t.g,
                    b: color_h.b + color_t.b,
                    a: color_h.a + color_t.a,
                },
                is_solid: true,
                size: FP_ONE,
            }
        } else {
            Voxel::default()
        };
        voxels.push(voxel);
        idx = idx + 1;
    }
    proof {
        assert(voxels@ =~= spec_generate(*settings, world_position, dims, samples@));
    }
    voxels
}

} // verus!
