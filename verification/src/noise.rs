//! Procedural noise: a pure, deterministic function from 3-D fixed-point
//! coordinates to a bounded scalar in `[-1, 1]`, selected by a seed. It is
//! lattice value noise: a modular-arithmetic hash assigns each integer cell
//! a value, and the fractional coordinates interpolate trilinearly between
//! the eight surrounding cells.

use vstd::prelude::*;
use crate::fixed::fx_ok;
use crate::fixed::fx_add_s;
use crate::fixed::fx_sub_s;
use crate::fixed::fx_mul_s;
use crate::fixed::clamp_one_s;
use crate::fixed::fx_add;
use crate::fixed::fx_sub;
use crate::fixed::fx_mul;
use crate::fixed::fx_clamp_one;
use crate::fixed::euclid_div_rem;
use crate::fixed::FX_ONE;
use crate::fixed::FX_MAX;
use crate::fixed::FX_MIN;
use crate::linalg::V3;
use crate::linalg::v3_ok;

verus! {

/// A noise field handle: the seed picks one function from the family.
#[derive(Clone, Copy, PartialEq, Eq, Structural, Debug)]
pub struct NoiseField {
    pub seed: u64,
}

/// The value of one lattice cell, in `[-65536, 65536]`: the coordinates and
/// the seed are mixed by multiplication, squaring and reduction modulo
/// `2^61 - 1`, then folded into the fixed-point unit range.
pub open spec fn cell_s(seed: u64, x: int, y: int, z: int) -> int {
    let m = 0x1FFF_FFFF_FFFF_FFFFint;
    let h = ((seed as int) + x * 0x9E37_79B9 + y * 0x85EB_CA6B + z * 0xC2B2_AE35) % m;
    let h2 = (h * h + h) % m;
    (h2 % 131073) - 65536
}

/// Evaluate one lattice cell.
fn cell(seed: u64, x: u64, y: u64, z: u64) -> (r: i64)
    ensures
        r == cell_s(seed, x as int, y as int, z as int),
        -FX_ONE <= r <= FX_ONE,
{
    let m: u128 = 0x1FFF_FFFF_FFFF_FFFF;
    let s: u128 = (seed as u128) + (x as u128) * 0x9E37_79B9 + (y as u128) * 0x85EB_CA6B
        + (z as u128) * 0xC2B2_AE35;
    let h: u128 = s % m;
    proof {
        assert(h * h + h < 0xffff_ffff_ffff_ffff_ffff_ffff_ffff_ffffu128)
            by (nonlinear_arith)
            requires
                h < 0x2000_0000_0000_0000u128,
        ;
    }
    let h2: u128 = (h * h + h) % m;
    let v: i64 = (h2 % 131073) as i64 - 65536;
    v
}

/// Fixed-point linear interpolation: `a + (b - a) * t`.
pub open spec fn lerp_s(a: int, b: int, t: int) -> int {
    fx_add_s(a, fx_mul_s(fx_sub_s(b, a), t))
}

fn lerp(a: i64, b: i64, t: i64) -> (r: i64)
    requires
        fx_ok(a),
        fx_ok(b),
        fx_ok(t),
    ensures
        r == lerp_s(a as int, b as int, t as int),
        fx_ok(r),
{
    fx_add(a, fx_mul(fx_sub(b, a), t))
}

/// The cell coordinate of a scalar: its floor in whole fixed-point units,
/// shifted into the non-negative range the hash takes.
pub open spec fn lattice_s(v: int) -> int {
    v / (FX_ONE as int) + 0x8000_0000
}

/// The fractional part of a scalar within its cell, in `[0, 65536)`.
pub open spec fn frac_s(v: int) -> int {
    v % (FX_ONE as int)
}

/// The noise sample at a 3-D fixed-point position: trilinear interpolation
/// of the eight surrounding cell values, saturated to `[-1, 1]`.
pub open spec fn sample_s(f: NoiseField, p: V3) -> int {
    let ux = lattice_s(p.x as int);
    let uy = lattice_s(p.y as int);
    let uz = lattice_s(p.z as int);
    let xf = frac_s(p.x as int);
    let yf = frac_s(p.y as int);
    let zf = frac_s(p.z as int);
    let x00 = lerp_s(cell_s(f.seed, ux, uy, uz), cell_s(f.seed, ux + 1, uy, uz), xf);
    let x10 = lerp_s(cell_s(f.seed, ux, uy + 1, uz), cell_s(f.seed, ux + 1, uy + 1, uz), xf);
    let x01 = lerp_s(cell_s(f.seed, ux, uy, uz + 1), cell_s(f.seed, ux + 1, uy, uz + 1), xf);
    let x11 = lerp_s(
        cell_s(f.seed, ux, uy + 1, uz + 1), cell_s(f.seed, ux + 1, uy + 1, uz + 1), xf);
    let y0 = lerp_s(x00, x10, yf);
    let y1 = lerp_s(x01, x11, yf);
    clamp_one_s(lerp_s(y0, y1, zf))
}

/// Sample the noise field at a position.
pub fn sample(f: &NoiseField, p: V3) -> (r: i64)
    requires
        v3_ok(p),
    ensures
        r == sample_s(*f, p),
        -FX_ONE <= r <= FX_ONE,
{
    let (qx, xf) = euclid_div_rem(p.x, FX_ONE);
    let (qy, yf) = euclid_div_rem(p.y, FX_ONE);
    let (qz, zf) = euclid_div_rem(p.z, FX_ONE);
    proof {
        lemma_lattice_range(p.x as int);
        lemma_lattice_range(p.y as int);
        lemma_lattice_range(p.z as int);
    }
    let ux = (qx + 0x8000_0000) as u64;
    let uy = (qy + 0x8000_0000) as u64;
    let uz = (qz + 0x8000_0000) as u64;
    let x00 = lerp(cell(f.seed, ux, uy, uz), cell(f.seed, ux + 1, uy, uz), xf);
    let x10 = lerp(cell(f.seed, ux, uy + 1, uz), cell(f.seed, ux + 1, uy + 1, uz), xf);
    let x01 = lerp(cell(f.seed, ux, uy, uz + 1), cell(f.seed, ux + 1, uy, uz + 1), xf);
    let x11 = lerp(
        cell(f.seed, ux, uy + 1, uz + 1), cell(f.seed, ux + 1, uy + 1, uz + 1), xf);
    let y0 = lerp(x00, x10, yf);
    let y1 = lerp(x01, x11, yf);
    fx_clamp_one(lerp(y0, y1, zf))
}

/// The floor of an in-range scalar in whole units stays within the shifted
/// 32-bit window the hash expects.
proof fn lemma_lattice_range(v: int)
    requires
        FX_MIN <= v <= FX_MAX,
    ensures
        0 <= v / (FX_ONE as int) + 0x8000_0000 < 0x1_0000_0000,
{
    vstd::arithmetic::div_mod::lemma_div_is_ordered(FX_MIN as int, v, FX_ONE as int);
    vstd::arithmetic::div_mod::lemma_div_is_ordered(v, FX_MAX as int, FX_ONE as int);
    assert((FX_MIN as int) / (FX_ONE as int) == -0x8000_0000);
    assert((FX_MAX as int) / (FX_ONE as int) == 0x7fff_ffff);
}

} // verus!
