//! The shader dispatcher: a pure function from a fragment and the frame's
//! uniforms to a packed color. The selector is an enum whose variants carry
//! exactly the noise fields they sample. Non-emissive variants map a noise
//! sample through threshold bands to a base palette, optionally layer
//! clouds or latitudinal stripes, and darken by a Lambertian term; the
//! emissive variant is guaranteed brighter than the bloom threshold for
//! every input.

use vstd::prelude::*;
use crate::fixed::fx_ok;
use crate::fixed::fx_add_s;
use crate::fixed::fx_mul_s;
use crate::fixed::fx_add;
use crate::fixed::fx_mul;
use crate::fixed::lemma_fx_scale_bound;
use crate::fixed::FX_ONE;
use crate::linalg::V3;
use crate::linalg::v3_ok;
use crate::linalg::Mat4;
use crate::linalg::mat_ok;
use crate::linalg::dot3_s;
use crate::linalg::dot3;
use crate::noise::NoiseField;
use crate::noise::sample_s;
use crate::noise::sample;
use crate::color::pack_s;
use crate::color::pack;
use crate::color::lum_s;
use crate::color::scale_color_s;
use crate::color::scale_color;
use crate::color::sat_add_s;
use crate::color::sat_add;
use crate::color::lemma_unpack_pack;
use crate::bloom::BLOOM_THRESHOLD;

verus! {

/// The fixed directional light, roughly the unit vector along (1, 1, 1).
pub const LIGHT_X: i64 = 37837;

/// See `LIGHT_X`.
pub const LIGHT_Y: i64 = 37837;

/// See `LIGHT_X`.
pub const LIGHT_Z: i64 = 37837;

/// The shader-variant selector; each variant carries the noise fields it
/// samples.
#[derive(Clone, Copy, PartialEq, Eq, Structural, Debug)]
pub enum ShaderKind {
    /// A dry, cratered surface: three earth-tone bands under daylight.
    Rocky { surface: NoiseField },
    /// An ocean world: blue-green bands with an alpha-blended cloud layer.
    Cloudy { surface: NoiseField, cloud: NoiseField },
    /// A gas giant: warm bands striped by a periodic latitude term.
    Banded { surface: NoiseField, band: NoiseField },
    /// The self-luminous central body; ignores the directional light.
    Emissive { core: NoiseField },
}

/// Per-draw-call values: the four matrices, the frame time counter, and
/// the shader variant. Between draw calls only the model matrix and the
/// selector change.
#[derive(Clone, Copy)]
pub struct Uniforms {
    pub model: Mat4,
    pub view: Mat4,
    pub projection: Mat4,
    pub viewport: Mat4,
    pub time: u32,
    pub shader: ShaderKind,
}

/// All four matrices are in range.
pub open spec fn uniforms_ok(u: Uniforms) -> bool {
    mat_ok(u.model) && mat_ok(u.view) && mat_ok(u.projection) && mat_ok(u.viewport)
}

/// The per-pixel product of rasterization: screen coordinates, the
/// interpolated depth, the world-space normal, and the object-space
/// position the noise fields are sampled at.
#[derive(Clone, Copy, PartialEq, Eq, Structural, Debug)]
pub struct Fragment {
    pub x: usize,
    pub y: usize,
    pub depth: i64,
    pub normal: V3,
    pub obj: V3,
}

/// The fragment's vectors are in range.
pub open spec fn fragment_ok(f: Fragment) -> bool {
    v3_ok(f.normal) && v3_ok(f.obj) && fx_ok(f.depth)
}

/// The animation drift: a bounded, monotone-in-the-frame function of the
/// time counter, added to the sampled x coordinate.
pub open spec fn drift_s(time: u32) -> int {
    ((time as int) % 62832) * 66
}

/// The point a noise field is sampled at: the object-space position scaled
/// by the variant's frequency, drifted along x by the frame time.
pub open spec fn surf_point_s(w: V3, freq: i64, time: u32) -> V3 {
    V3 {
        x: fx_add_s(fx_mul_s(w.x as int, freq as int), drift_s(time)) as i64,
        y: fx_mul_s(w.y as int, freq as int) as i64,
        z: fx_mul_s(w.z as int, freq as int) as i64,
    }
}

fn surf_point(w: V3, freq: i64, time: u32) -> (r: V3)
    requires
        v3_ok(w),
        0 <= freq <= 0x10_0000,
    ensures
        r == surf_point_s(w, freq, time),
        v3_ok(r),
{
    let drift: i64 = ((time % 62832) as i64) * 66;
    V3 {
        x: fx_add(fx_mul(w.x, freq), drift),
        y: fx_mul(w.y, freq),
        z: fx_mul(w.z, freq),
    }
}

/// A three-band palette lookup on a unit-interval sample.
pub open spec fn band3_s(s: int, c0: u32, c1: u32, c2: u32) -> u32 {
    if s < -21845 {
        c0
    } else if s < 21845 {
        c1
    } else {
        c2
    }
}

fn band3(s: i64, c0: u32, c1: u32, c2: u32) -> (c: u32)
    ensures
        c == band3_s(s as int, c0, c1, c2),
{
    if s < -21845 {
        c0
    } else if s < 21845 {
        c1
    } else {
        c2
    }
}

/// Clamp a scalar to the closed unit interval `[0, 1]`.
pub open spec fn clamp01_s(x: int) -> int {
    if x < 0 {
        0
    } else if x > FX_ONE as int {
        FX_ONE as int
    } else {
        x
    }
}

fn clamp01(x: i64) -> (r: i64)
    ensures
        r == clamp01_s(x as int),
        0 <= r <= FX_ONE,
{
    if x < 0 {
        0
    } else if x > FX_ONE {
        FX_ONE
    } else {
        x
    }
}

/// The Lambertian brightness factor: the cosine between the surface
/// normal and the fixed light direction, clamped to non-negative.
pub open spec fn lambert_s(n: V3) -> int {
    clamp01_s(dot3_s(n, V3 { x: LIGHT_X, y: LIGHT_Y, z: LIGHT_Z }))
}

fn lambert(n: V3) -> (t: i64)
    requires
        v3_ok(n),
    ensures
        t == lambert_s(n),
        0 <= t <= FX_ONE,
{
    clamp01(dot3(n, V3 { x: LIGHT_X, y: LIGHT_Y, z: LIGHT_Z }))
}

/// What the dispatcher returns for a fragment under the frame's uniforms:
/// one packed color per variant, each a pure function of its inputs.
pub open spec fn shade_s(f: Fragment, u: Uniforms) -> int {
    match u.shader {
        ShaderKind::Rocky { surface } => {
            let s = sample_s(surface, surf_point_s(f.obj, 196608, u.time));
            scale_color_s(band3_s(s, 0x5A3A22, 0x7A5230, 0x9B7B4F), lambert_s(f.normal))
        },
        ShaderKind::Cloudy { surface, cloud } => {
            let s = sample_s(surface, surf_point_s(f.obj, 131072, u.time));
            let cs = sample_s(cloud, surf_point_s(f.obj, 262144, u.time));
            let base = band3_s(s, 0x1A3A6B, 0x2E6B4F, 0x6B8E23);
            let a = clamp01_s(cs - 13107);
            let mixed = sat_add_s(
                scale_color_s(base, (FX_ONE as int) - a) as u32,
                scale_color_s(0xFF_FFFF, a) as u32,
            );
            scale_color_s(mixed as u32, lambert_s(f.normal))
        },
        ShaderKind::Banded { surface, band } => {
            let s = sample_s(surface, surf_point_s(f.obj, 131072, u.time));
            let bs = sample_s(band, surf_point_s(f.obj, 262144, u.time));
            let stripe = crate::fixed::sin_s(
                fx_add_s(fx_mul_s(f.normal.y as int, 327680), fx_mul_s(bs, 131072)));
            let factor = fx_add_s(49152, fx_mul_s(stripe, 16384));
            let base = scale_color_s(band3_s(s, 0x8E5A2B, 0xC27B3F, 0xE0A060), factor);
            scale_color_s(base as u32, lambert_s(f.normal))
        },
        ShaderKind::Emissive { core } => {
            let s = sample_s(core, surf_point_s(f.obj, 196608, u.time));
            pack_s(255, 220 + fx_mul_s(s, 30), 96 + fx_mul_s(s, 64))
        },
    }
}

/// Dispatch one fragment to its shader variant. The result is an exact,
/// deterministic function of the fragment and uniforms; the emissive
/// variant's luminance always reaches the bloom threshold.
pub fn shade(f: &Fragment, u: &Uniforms) -> (c: u32)
    requires
        fragment_ok(*f),
    ensures
        c == shade_s(*f, *u),
        c <= 0xFF_FFFF,
        u.shader matches ShaderKind::Emissive { .. } ==> lum_s(c as int) >= BLOOM_THRESHOLD,
{
    match u.shader {
        ShaderKind::Rocky { surface } => {
            let s = sample(&surface, surf_point(f.obj, 196608, u.time));
            scale_color(band3(s, 0x5A3A22, 0x7A5230, 0x9B7B4F), lambert(f.normal))
        },
        ShaderKind::Cloudy { surface, cloud } => {
            let s = sample(&surface, surf_point(f.obj, 131072, u.time));
            let cs = sample(&cloud, surf_point(f.obj, 262144, u.time));
            let base = band3(s, 0x1A3A6B, 0x2E6B4F, 0x6B8E23);
            let a = clamp01(cs - 13107);
            let mixed = sat_add(
                scale_color(base, FX_ONE - a),
                scale_color(0xFF_FFFF, a),
            );
            scale_color(mixed, lambert(f.normal))
        },
        ShaderKind::Banded { surface, band } => {
            let s = sample(&surface, surf_point(f.obj, 131072, u.time));
            let bs = sample(&band, surf_point(f.obj, 262144, u.time));
            let stripe = crate::fixed::fx_sin(
                fx_add(fx_mul(f.normal.y, 327680), fx_mul(bs, 131072)));
            proof {
                lemma_fx_scale_bound(stripe as int, 16384);
            }
            let factor = fx_add(49152, fx_mul(stripe, 16384));
            let base = scale_color(band3(s, 0x8E5A2B, 0xC27B3F, 0xE0A060), factor);
            scale_color(base, lambert(f.normal))
        },
        ShaderKind::Emissive { core } => {
            let s = sample(&core, surf_point(f.obj, 196608, u.time));
            proof {
                lemma_fx_scale_bound(s as int, 30);
                lemma_fx_scale_bound(s as int, 64);
            }
            let g: u32 = (220 + fx_mul(s, 30)) as u32;
            let b: u32 = (96 + fx_mul(s, 64)) as u32;
            let c = pack(255, g, b);
            proof {
                lemma_unpack_pack(255, g as int, b as int);
                vstd::arithmetic::div_mod::lemma_div_is_ordered(
                    191423, 299 * 255 + 587 * (g as int) + 114 * (b as int), 1000);
            }
            c
        },
    }
}

} // verus!
