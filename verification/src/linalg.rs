//! Fixed-point vectors and 4x4 matrices for the transform stages.

use vstd::prelude::*;
use crate::fixed::fx_ok;
use crate::fixed::fx_add_s;
use crate::fixed::fx_sub_s;
use crate::fixed::fx_mul_s;
use crate::fixed::fx_div_s;
use crate::fixed::clamp_s;
use crate::fixed::sqrt_s;
use crate::fixed::abs_s;
use crate::fixed::fx_add;
use crate::fixed::fx_sub;
use crate::fixed::fx_mul;
use crate::fixed::fx_div;
use crate::fixed::fx_clamp;
use crate::fixed::isqrt;
use crate::fixed::FX_MAX;
use crate::fixed::FX_ONE;

verus! {

/// A 3-component fixed-point vector (a position, normal, or direction).
#[derive(Clone, Copy, PartialEq, Eq, Structural, Debug)]
pub struct V3 {
    pub x: i64,
    pub y: i64,
    pub z: i64,
}

/// A 4-component fixed-point vector (a homogeneous position).
#[derive(Clone, Copy, PartialEq, Eq, Structural, Debug)]
pub struct V4 {
    pub x: i64,
    pub y: i64,
    pub z: i64,
    pub w: i64,
}

/// A row-major 4x4 fixed-point matrix; `mRC` is row R, column C.
#[derive(Clone, Copy, PartialEq, Eq, Structural, Debug)]
pub struct Mat4 {
    pub m00: i64, pub m01: i64, pub m02: i64, pub m03: i64,
    pub m10: i64, pub m11: i64, pub m12: i64, pub m13: i64,
    pub m20: i64, pub m21: i64, pub m22: i64, pub m23: i64,
    pub m30: i64, pub m31: i64, pub m32: i64, pub m33: i64,
}

/// All components lie in the fixed-point range.
pub open spec fn v3_ok(v: V3) -> bool {
    fx_ok(v.x) && fx_ok(v.y) && fx_ok(v.z)
}

/// All components lie in the fixed-point range.
pub open spec fn v4_ok(v: V4) -> bool {
    fx_ok(v.x) && fx_ok(v.y) && fx_ok(v.z) && fx_ok(v.w)
}

/// All entries lie in the fixed-point range.
pub open spec fn mat_ok(m: Mat4) -> bool {
    &&& fx_ok(m.m00) && fx_ok(m.m01) && fx_ok(m.m02) && fx_ok(m.m03)
    &&& fx_ok(m.m10) && fx_ok(m.m11) && fx_ok(m.m12) && fx_ok(m.m13)
    &&& fx_ok(m.m20) && fx_ok(m.m21) && fx_ok(m.m22) && fx_ok(m.m23)
    &&& fx_ok(m.m30) && fx_ok(m.m31) && fx_ok(m.m32) && fx_ok(m.m33)
}

/// Fixed-point dot product of a matrix row with a homogeneous vector.
pub open spec fn dot4_s(a: int, b: int, c: int, d: int, v: V4) -> int {
    fx_add_s(
        fx_add_s(fx_mul_s(a, v.x as int), fx_mul_s(b, v.y as int)),
        fx_add_s(fx_mul_s(c, v.z as int), fx_mul_s(d, v.w as int)),
    )
}

fn dot4(a: i64, b: i64, c: i64, d: i64, v: V4) -> (r: i64)
    requires
        fx_ok(a),
        fx_ok(b),
        fx_ok(c),
        fx_ok(d),
        v4_ok(v),
    ensures
        r == dot4_s(a as int, b as int, c as int, d as int, v),
        fx_ok(r),
{
    fx_add(
        fx_add(fx_mul(a, v.x), fx_mul(b, v.y)),
        fx_add(fx_mul(c, v.z), fx_mul(d, v.w)),
    )
}

/// The matrix applied to a homogeneous vector.
pub open spec fn mat_vec_s(m: Mat4, v: V4) -> V4 {
    V4 {
        x: dot4_s(m.m00 as int, m.m01 as int, m.m02 as int, m.m03 as int, v) as i64,
        y: dot4_s(m.m10 as int, m.m11 as int, m.m12 as int, m.m13 as int, v) as i64,
        z: dot4_s(m.m20 as int, m.m21 as int, m.m22 as int, m.m23 as int, v) as i64,
        w: dot4_s(m.m30 as int, m.m31 as int, m.m32 as int, m.m33 as int, v) as i64,
    }
}

/// Apply a matrix to a homogeneous vector.
pub fn mat_vec(m: &Mat4, v: V4) -> (r: V4)
    requires
        mat_ok(*m),
        v4_ok(v),
    ensures
        r == mat_vec_s(*m, v),
        v4_ok(r),
{
    V4 {
        x: dot4(m.m00, m.m01, m.m02, m.m03, v),
        y: dot4(m.m10, m.m11, m.m12, m.m13, v),
        z: dot4(m.m20, m.m21, m.m22, m.m23, v),
        w: dot4(m.m30, m.m31, m.m32, m.m33, v),
    }
}

/// One entry of a fixed-point matrix product.
pub open spec fn mul_entry_s(a: Mat4, b: Mat4, r: int, c: int) -> int {
    dot4_s(
        mat_row_s(a, r, 0), mat_row_s(a, r, 1), mat_row_s(a, r, 2), mat_row_s(a, r, 3),
        V4 {
            x: mat_row_s(b, 0, c) as i64,
            y: mat_row_s(b, 1, c) as i64,
            z: mat_row_s(b, 2, c) as i64,
            w: mat_row_s(b, 3, c) as i64,
        },
    )
}

/// The entry of a matrix at a row and column, as an unbounded integer.
pub open spec fn mat_row_s(m: Mat4, r: int, c: int) -> int {
    if r == 0 {
        if c == 0 { m.m00 as int } else if c == 1 { m.m01 as int }
        else if c == 2 { m.m02 as int } else { m.m03 as int }
    } else if r == 1 {
        if c == 0 { m.m10 as int } else if c == 1 { m.m11 as int }
        else if c == 2 { m.m12 as int } else { m.m13 as int }
    } else if r == 2 {
        if c == 0 { m.m20 as int } else if c == 1 { m.m21 as int }
        else if c == 2 { m.m22 as int } else { m.m23 as int }
    } else {
        if c == 0 { m.m30 as int } else if c == 1 { m.m31 as int }
        else if c == 2 { m.m32 as int } else { m.m33 as int }
    }
}

/// The fixed-point matrix product.
pub open spec fn mat_mul_s(a: Mat4, b: Mat4) -> Mat4 {
    Mat4 {
        m00: mul_entry_s(a, b, 0, 0) as i64, m01: mul_entry_s(a, b, 0, 1) as i64,
        m02: mul_entry_s(a, b, 0, 2) as i64, m03: mul_entry_s(a, b, 0, 3) as i64,
        m10: mul_entry_s(a, b, 1, 0) as i64, m11: mul_entry_s(a, b, 1, 1) as i64,
        m12: mul_entry_s(a, b, 1, 2) as i64, m13: mul_entry_s(a, b, 1, 3) as i64,
        m20: mul_entry_s(a, b, 2, 0) as i64, m21: mul_entry_s(a, b, 2, 1) as i64,
        m22: mul_entry_s(a, b, 2, 2) as i64, m23: mul_entry_s(a, b, 2, 3) as i64,
        m30: mul_entry_s(a, b, 3, 0) as i64, m31: mul_entry_s(a, b, 3, 1) as i64,
        m32: mul_entry_s(a, b, 3, 2) as i64, m33: mul_entry_s(a, b, 3, 3) as i64,
    }
}

/// Multiply two matrices in fixed point.
pub fn mat_mul(a: &Mat4, b: &Mat4) -> (r: Mat4)
    requires
        mat_ok(*a),
        mat_ok(*b),
    ensures
        r == mat_mul_s(*a, *b),
        mat_ok(r),
{
    let c0 = V4 { x: b.m00, y: b.m10, z: b.m20, w: b.m30 };
    let c1 = V4 { x: b.m01, y: b.m11, z: b.m21, w: b.m31 };
    let c2 = V4 { x: b.m02, y: b.m12, z: b.m22, w: b.m32 };
    let c3 = V4 { x: b.m03, y: b.m13, z: b.m23, w: b.m33 };
    Mat4 {
        m00: dot4(a.m00, a.m01, a.m02, a.m03, c0),
        m01: dot4(a.m00, a.m01, a.m02, a.m03, c1),
        m02: dot4(a.m00, a.m01, a.m02, a.m03, c2),
        m03: dot4(a.m00, a.m01, a.m02, a.m03, c3),
        m10: dot4(a.m10, a.m11, a.m12, a.m13, c0),
        m11: dot4(a.m10, a.m11, a.m12, a.m13, c1),
        m12: dot4(a.m10, a.m11, a.m12, a.m13, c2),
        m13: dot4(a.m10, a.m11, a.m12, a.m13, c3),
        m20: dot4(a.m20, a.m21, a.m22, a.m23, c0),
        m21: dot4(a.m20, a.m21, a.m22, a.m23, c1),
        m22: dot4(a.m20, a.m21, a.m22, a.m23, c2),
        m23: dot4(a.m20, a.m21, a.m22, a.m23, c3),
        m30: dot4(a.m30, a.m31, a.m32, a.m33, c0),
        m31: dot4(a.m30, a.m31, a.m32, a.m33, c1),
        m32: dot4(a.m30, a.m31, a.m32, a.m33, c2),
        m33: dot4(a.m30, a.m31, a.m32, a.m33, c3),
    }
}

/// Fixed-point dot product of two 3-vectors.
pub open spec fn dot3_s(a: V3, b: V3) -> int {
    fx_add_s(
        fx_add_s(fx_mul_s(a.x as int, b.x as int), fx_mul_s(a.y as int, b.y as int)),
        fx_mul_s(a.z as int, b.z as int),
    )
}

/// Dot product of two 3-vectors.
pub fn dot3(a: V3, b: V3) -> (r: i64)
    requires
        v3_ok(a),
        v3_ok(b),
    ensures
        r == dot3_s(a, b),
        fx_ok(r),
{
    fx_add(fx_add(fx_mul(a.x, b.x), fx_mul(a.y, b.y)), fx_mul(a.z, b.z))
}

/// Fixed-point cross product of two 3-vectors.
pub open spec fn cross_s(a: V3, b: V3) -> V3 {
    V3 {
        x: fx_sub_s(fx_mul_s(a.y as int, b.z as int), fx_mul_s(a.z as int, b.y as int)) as i64,
        y: fx_sub_s(fx_mul_s(a.z as int, b.x as int), fx_mul_s(a.x as int, b.z as int)) as i64,
        z: fx_sub_s(fx_mul_s(a.x as int, b.y as int), fx_mul_s(a.y as int, b.x as int)) as i64,
    }
}

/// Cross product of two 3-vectors.
pub fn cross(a: V3, b: V3) -> (r: V3)
    requires
        v3_ok(a),
        v3_ok(b),
    ensures
        r == cross_s(a, b),
        v3_ok(r),
{
    V3 {
        x: fx_sub(fx_mul(a.y, b.z), fx_mul(a.z, b.y)),
        y: fx_sub(fx_mul(a.z, b.x), fx_mul(a.x, b.z)),
        z: fx_sub(fx_mul(a.x, b.y), fx_mul(a.y, b.x)),
    }
}

/// The Euclidean length of a 3-vector: the integer square root of the sum
/// of the raw squared components (which carries the fixed-point scale),
/// saturated into range.
pub open spec fn len3_s(v: V3) -> int {
    clamp_s(sqrt_s(
        (v.x as int) * (v.x as int) + (v.y as int) * (v.y as int)
            + (v.z as int) * (v.z as int),
    ))
}

/// Length of a 3-vector.
pub fn len3(v: V3) -> (r: i64)
    requires
        v3_ok(v),
    ensures
        r == len3_s(v),
        0 <= r <= FX_MAX,
{
    proof {
        assert((v.x as int) * (v.x as int) == abs_s(v.x as int) * abs_s(v.x as int)
            && 0 <= (v.x as int) * (v.x as int) <= (FX_MAX as int) * (FX_MAX as int))
            by (nonlinear_arith)
            requires
                -(FX_MAX as int) <= v.x as int <= FX_MAX as int,
        ;
        assert((v.y as int) * (v.y as int) == abs_s(v.y as int) * abs_s(v.y as int)
            && 0 <= (v.y as int) * (v.y as int) <= (FX_MAX as int) * (FX_MAX as int))
            by (nonlinear_arith)
            requires
                -(FX_MAX as int) <= v.y as int <= FX_MAX as int,
        ;
        assert((v.z as int) * (v.z as int) == abs_s(v.z as int) * abs_s(v.z as int)
            && 0 <= (v.z as int) * (v.z as int) <= (FX_MAX as int) * (FX_MAX as int))
            by (nonlinear_arith)
            requires
                -(FX_MAX as int) <= v.z as int <= FX_MAX as int,
        ;
    }
    let ax: u64 = if v.x < 0 { (-v.x) as u64 } else { v.x as u64 };
    let ay: u64 = if v.y < 0 { (-v.y) as u64 } else { v.y as u64 };
    let az: u64 = if v.z < 0 { (-v.z) as u64 } else { v.z as u64 };
    proof {
        assert(ax as int == abs_s(v.x as int));
        assert(ay as int == abs_s(v.y as int));
        assert(az as int == abs_s(v.z as int));
        assert((ax as int) * (ax as int) == (v.x as int) * (v.x as int)
            && (ax as int) * (ax as int) <= (FX_MAX as int) * (FX_MAX as int))
            by (nonlinear_arith)
            requires
                ax as int == abs_s(v.x as int),
                0 <= ax as int <= FX_MAX as int,
        ;
        assert((ay as int) * (ay as int) == (v.y as int) * (v.y as int)
            && (ay as int) * (ay as int) <= (FX_MAX as int) * (FX_MAX as int))
            by (nonlinear_arith)
            requires
                ay as int == abs_s(v.y as int),
                0 <= ay as int <= FX_MAX as int,
        ;
        assert((az as int) * (az as int) == (v.z as int) * (v.z as int)
            && (az as int) * (az as int) <= (FX_MAX as int) * (FX_MAX as int))
            by (nonlinear_arith)
            requires
                az as int == abs_s(v.z as int),
                0 <= az as int <= FX_MAX as int,
        ;
    }
    let n: u128 = (ax as u128) * (ax as u128) + (ay as u128) * (ay as u128)
        + (az as u128) * (az as u128);
    let s = isqrt(n);
    proof {
        assert((s as int) < 0x1_0000_0000_0000int) by (nonlinear_arith)
            requires
                (s as int) * (s as int) <= n as int,
                0 <= s as int,
                n as int <= 3 * ((FX_MAX as int) * (FX_MAX as int)),
        ;
    }
    fx_clamp(s as i64)
}

/// A vector scaled to unit length with saturating division, or the zero
/// vector when the length rounds to zero.
pub open spec fn normalize_s(v: V3) -> V3 {
    let l = len3_s(v);
    if l <= 0 {
        V3 { x: 0, y: 0, z: 0 }
    } else {
        V3 {
            x: fx_div_s(v.x as int, l) as i64,
            y: fx_div_s(v.y as int, l) as i64,
            z: fx_div_s(v.z as int, l) as i64,
        }
    }
}

/// Normalize a 3-vector.
pub fn normalize(v: V3) -> (r: V3)
    requires
        v3_ok(v),
    ensures
        r == normalize_s(v),
        v3_ok(r),
{
    let l = len3(v);
    if l <= 0 {
        V3 { x: 0, y: 0, z: 0 }
    } else {
        V3 { x: fx_div(v.x, l), y: fx_div(v.y, l), z: fx_div(v.z, l) }
    }
}

/// Component-wise difference of two 3-vectors.
pub open spec fn sub3_s(a: V3, b: V3) -> V3 {
    V3 {
        x: fx_sub_s(a.x as int, b.x as int) as i64,
        y: fx_sub_s(a.y as int, b.y as int) as i64,
        z: fx_sub_s(a.z as int, b.z as int) as i64,
    }
}

/// Subtract two 3-vectors component-wise.
pub fn sub3(a: V3, b: V3) -> (r: V3)
    requires
        v3_ok(a),
        v3_ok(b),
    ensures
        r == sub3_s(a, b),
        v3_ok(r),
{
    V3 { x: fx_sub(a.x, b.x), y: fx_sub(a.y, b.y), z: fx_sub(a.z, b.z) }
}

/// Lift a 3-vector to a homogeneous point (w = 1).
pub fn to_point(v: V3) -> (r: V4)
    requires
        v3_ok(v),
    ensures
        r == (V4 { x: v.x, y: v.y, z: v.z, w: FX_ONE }),
        v4_ok(r),
{
    V4 { x: v.x, y: v.y, z: v.z, w: FX_ONE }
}

/// Lift a 3-vector to a homogeneous direction (w = 0).
pub fn to_dir(v: V3) -> (r: V4)
    requires
        v3_ok(v),
    ensures
        r == (V4 { x: v.x, y: v.y, z: v.z, w: 0i64 }),
        v4_ok(r),
{
    V4 { x: v.x, y: v.y, z: v.z, w: 0 }
}

} // verus!
