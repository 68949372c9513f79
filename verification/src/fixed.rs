//! Saturating signed fixed-point scalars with 16 fractional bits.
//!
//! Every quantity the pipeline computes with (coordinates, matrix entries,
//! noise samples, depths) is an `i64` holding `value * 65536`, kept inside
//! the symmetric range `[FX_MIN, FX_MAX]`. All operations saturate at that
//! range and round toward zero, so they are total functions with exact
//! specifications and can never overflow.

use vstd::prelude::*;

verus! {

/// The fixed-point representation of 1.
pub const FX_ONE: i64 = 65536;

/// Largest representable fixed-point scalar (2^47 - 1 raw units).
pub const FX_MAX: i64 = 0x7fff_ffff_ffff;

/// Smallest representable fixed-point scalar; the range is symmetric so
/// negation never overflows.
pub const FX_MIN: i64 = -0x7fff_ffff_ffff;

/// A scalar lies in the representable fixed-point range.
pub open spec fn fx_ok(a: i64) -> bool {
    FX_MIN <= a <= FX_MAX
}

/// Saturate an unbounded integer into the representable range.
pub open spec fn clamp_s(x: int) -> int {
    if x > FX_MAX as int {
        FX_MAX as int
    } else if x < FX_MIN as int {
        FX_MIN as int
    } else {
        x
    }
}

/// Absolute value of an unbounded integer.
pub open spec fn abs_s(a: int) -> int {
    if a < 0 {
        -a
    } else {
        a
    }
}

/// Division rounding toward zero (the rounding rule of every fixed-point
/// operation here), defined for any divisor; 0 when the divisor is 0.
pub open spec fn div0_s(a: int, b: int) -> int {
    if b == 0 {
        0
    } else if (a < 0) == (b < 0) {
        abs_s(a) / abs_s(b)
    } else {
        -(abs_s(a) / abs_s(b))
    }
}

/// Saturating addition.
pub open spec fn fx_add_s(a: int, b: int) -> int {
    clamp_s(a + b)
}

/// Saturating subtraction.
pub open spec fn fx_sub_s(a: int, b: int) -> int {
    clamp_s(a - b)
}

/// Saturating fixed-point product: (a * b) / 65536, rounded toward zero.
pub open spec fn fx_mul_s(a: int, b: int) -> int {
    clamp_s(div0_s(a * b, FX_ONE as int))
}

/// Saturating fixed-point quotient: (a * 65536) / b, rounded toward zero;
/// 0 when the divisor is 0.
pub open spec fn fx_div_s(a: int, b: int) -> int {
    clamp_s(div0_s(a * (FX_ONE as int), b))
}

/// Saturate an `i64` into the representable range.
pub fn fx_clamp(x: i64) -> (r: i64)
    ensures
        r == clamp_s(x as int),
        fx_ok(r),
{
    if x > FX_MAX {
        FX_MAX
    } else if x < FX_MIN {
        FX_MIN
    } else {
        x
    }
}

/// Saturating addition of two in-range scalars.
pub fn fx_add(a: i64, b: i64) -> (r: i64)
    requires
        fx_ok(a),
        fx_ok(b),
    ensures
        r == fx_add_s(a as int, b as int),
        fx_ok(r),
{
    fx_clamp(a + b)
}

/// Saturating subtraction of two in-range scalars.
pub fn fx_sub(a: i64, b: i64) -> (r: i64)
    requires
        fx_ok(a),
        fx_ok(b),
    ensures
        r == fx_sub_s(a as int, b as int),
        fx_ok(r),
{
    fx_clamp(a - b)
}

/// Split an in-range scalar into its sign and magnitude.
fn fx_abs_parts(a: i64) -> (r: (bool, u64))
    requires
        fx_ok(a),
    ensures
        r.1 == abs_s(a as int),
        r.0 == (a < 0),
        r.1 <= FX_MAX,
{
    if a < 0 {
        (true, (-a) as u64)
    } else {
        (false, a as u64)
    }
}

/// Reassemble a clamped magnitude and a sign into a scalar.
fn fx_from_parts(neg: bool, mag: u128) -> (r: i64)
    ensures
        r == if neg {
            clamp_s(-(mag as int))
        } else {
            clamp_s(mag as int)
        },
        fx_ok(r),
{
    let m: i64 = if mag > (FX_MAX as u128) {
        FX_MAX
    } else {
        mag as i64
    };
    if neg {
        -m
    } else {
        m
    }
}

/// Saturating fixed-point multiplication.
pub fn fx_mul(a: i64, b: i64) -> (r: i64)
    requires
        fx_ok(a),
        fx_ok(b),
    ensures
        r == fx_mul_s(a as int, b as int),
        fx_ok(r),
{
    let (na, ua) = fx_abs_parts(a);
    let (nb, ub) = fx_abs_parts(b);
    proof {
        assert((ua as int) * (ub as int) <= (FX_MAX as int) * (FX_MAX as int))
            by (nonlinear_arith)
            requires
                0 <= ua as int <= FX_MAX as int,
                0 <= ub as int <= FX_MAX as int,
        ;
    }
    let p: u128 = (ua as u128) * (ub as u128);
    let q: u128 = p / 65536;
    proof {
        assert((a as int) * (b as int) == if na == nb {
            (ua as int) * (ub as int)
        } else {
            -((ua as int) * (ub as int))
        }) by (nonlinear_arith)
            requires
                ua == abs_s(a as int),
                ub == abs_s(b as int),
                na == (a < 0),
                nb == (b < 0),
        ;
        assert(q == abs_s((a as int) * (b as int)) / (FX_ONE as int));
    }
    fx_from_parts(na != nb, q)
}

/// Saturating fixed-point division; returns 0 for a zero divisor.
pub fn fx_div(a: i64, b: i64) -> (r: i64)
    requires
        fx_ok(a),
        fx_ok(b),
    ensures
        r == fx_div_s(a as int, b as int),
        fx_ok(r),
{
    if b == 0 {
        return 0;
    }
    let (na, ua) = fx_abs_parts(a);
    let (nb, ub) = fx_abs_parts(b);
    let p: u128 = (ua as u128) * 65536;
    let q: u128 = p / (ub as u128);
    proof {
        assert((a as int) * (FX_ONE as int) == if na {
            -((ua as int) * (FX_ONE as int))
        } else {
            (ua as int) * (FX_ONE as int)
        }) by (nonlinear_arith)
            requires
                ua == abs_s(a as int),
                na == (a < 0),
        ;
        assert(q == abs_s((a as int) * (FX_ONE as int)) / (ub as int));
    }
    fx_from_parts(na != nb, q)
}

/// Euclidean quotient and remainder of an in-range scalar by a positive
/// modulus: the quotient is the floor, the remainder lies in `[0, m)`.
pub fn euclid_div_rem(a: i64, m: i64) -> (qr: (i64, i64))
    requires
        fx_ok(a),
        0 < m <= FX_MAX,
    ensures
        qr.0 == (a as int) / (m as int),
        qr.1 == (a as int) % (m as int),
        0 <= qr.1 < m,
        -FX_MAX - 1 <= qr.0 <= FX_MAX,
{
    let (na, ua) = fx_abs_parts(a);
    let um = m as u64;
    let qm = ua / um;
    let rm = ua % um;
    proof {
        vstd::arithmetic::div_mod::lemma_fundamental_div_mod(ua as int, um as int);
    }
    if !na {
        proof {
            vstd::arithmetic::div_mod::lemma_fundamental_div_mod_converse(
                a as int, m as int, qm as int, rm as int);
        }
        (qm as i64, rm as i64)
    } else if rm == 0 {
        proof {
            assert(a as int == (-(qm as int)) * (m as int) + 0) by (nonlinear_arith)
                requires
                    ua as int == (qm as int) * (um as int) + (rm as int),
                    rm == 0,
                    a as int == -(ua as int),
                    um == m,
            ;
            vstd::arithmetic::div_mod::lemma_fundamental_div_mod_converse(
                a as int, m as int, -(qm as int), 0);
        }
        (-(qm as i64), 0)
    } else {
        proof {
            assert(a as int == (-(qm as int) - 1) * (m as int) + ((m - rm) as int))
                by (nonlinear_arith)
                requires
                    ua as int == (qm as int) * (um as int) + (rm as int),
                    a as int == -(ua as int),
                    um == m,
            ;
            vstd::arithmetic::div_mod::lemma_fundamental_div_mod_converse(
                a as int, m as int, -(qm as int) - 1, (m - rm) as int);
        }
        (-(qm as i64) - 1, m - (rm as i64))
    }
}

/// The integer square root: the unique `r >= 0` with
/// `r * r <= n < (r + 1) * (r + 1)`.
pub open spec fn sqrt_s(n: int) -> int {
    choose|r: int| 0 <= r && #[trigger] (r * r) <= n && n < (r + 1) * (r + 1)
}

/// A witness of the square-root property pins `sqrt_s` down.
pub proof fn lemma_sqrt_unique(n: int, r: int)
    requires
        0 <= r,
        r * r <= n,
        n < (r + 1) * (r + 1),
    ensures
        sqrt_s(n) == r,
{
    assert(0 <= r && r * r <= n && n < (r + 1) * (r + 1));
    let c = sqrt_s(n);
    assert(0 <= c && c * c <= n && n < (c + 1) * (c + 1)) by {
        assert(exists|x: int| 0 <= x && #[trigger] (x * x) <= n && n < (x + 1) * (x + 1));
    }
    assert(c == r) by (nonlinear_arith)
        requires
            0 <= r,
            r * r <= n,
            n < (r + 1) * (r + 1),
            0 <= c,
            c * c <= n,
            n < (c + 1) * (c + 1),
    ;
}

/// Binary-search integer square root.
pub fn isqrt(n: u128) -> (r: u128)
    requires
        n < 0x4000_0000_0000_0000_0000_0000_0000_0000u128,
    ensures
        r == sqrt_s(n as int),
        (r as int) * (r as int) <= n as int,
        (n as int) < ((r as int) + 1) * ((r as int) + 1),
{
    let mut lo: u128 = 0;
    let mut hi: u128 = 0x8000_0000_0000_0000u128;
    proof {
        assert((hi as int) * (hi as int) == 0x4000_0000_0000_0000_0000_0000_0000_0000int)
            by (nonlinear_arith)
            requires
                hi == 0x8000_0000_0000_0000u128,
        ;
    }
    while lo + 1 < hi
        invariant
            lo < hi <= 0x8000_0000_0000_0000u128,
            (lo as int) * (lo as int) <= n as int,
            (n as int) < (hi as int) * (hi as int),
        decreases hi - lo,
    {
        let mid = lo + (hi - lo) / 2;
        proof {
            assert((mid as int) * (mid as int)
                < 0x4000_0000_0000_0000_0000_0000_0000_0000int * 4) by (nonlinear_arith)
                requires
                    0 <= mid as int <= 0x8000_0000_0000_0000int,
            ;
        }
        if mid * mid <= n {
            lo = mid;
        } else {
            hi = mid;
        }
    }
    proof {
        lemma_sqrt_unique(n as int, lo as int);
    }
    lo
}

/// Fixed-point square root of a non-negative scalar: the integer square
/// root of `a * 65536`, which carries the fixed-point scale.
pub fn fx_sqrt(a: i64) -> (r: i64)
    requires
        0 <= a <= FX_MAX,
    ensures
        r == sqrt_s((a as int) * (FX_ONE as int)),
        0 <= r <= FX_MAX,
{
    let n: u128 = (a as u128) * 65536;
    let r = isqrt(n);
    proof {
        assert(r as int <= FX_MAX as int) by (nonlinear_arith)
            requires
                (r as int) * (r as int) <= n as int,
                n as int <= (FX_MAX as int) * 65536,
                0 <= r as int,
        ;
    }
    r as i64
}

/// A product of a unit-interval scalar with a small constant is bounded by
/// that constant.
pub proof fn lemma_fx_scale_bound(s: int, k: int)
    requires
        -(FX_ONE as int) <= s <= FX_ONE as int,
        0 <= k <= 1000000,
    ensures
        -k <= fx_mul_s(s, k) <= k,
        0 <= s ==> 0 <= fx_mul_s(s, k),
{
    assert(abs_s(s * k) == abs_s(s) * k && abs_s(s) * k <= (FX_ONE as int) * k)
        by (nonlinear_arith)
        requires
            -(FX_ONE as int) <= s <= FX_ONE as int,
            0 <= k,
    ;
    vstd::arithmetic::div_mod::lemma_div_is_ordered(
        abs_s(s * k), (FX_ONE as int) * k, FX_ONE as int);
    vstd::arithmetic::div_mod::lemma_div_by_multiple(k, FX_ONE as int);
    vstd::arithmetic::div_mod::lemma_div_pos_is_pos(abs_s(s * k), FX_ONE as int);
    assert(0 <= s && 0 <= k ==> 0 <= s * k) by (nonlinear_arith);
}

/// Division of a wide intermediate by a positive divisor, rounding toward
/// zero (the rasterizer's interpolation step).
pub fn idiv128(a: i128, b: i128) -> (r: i128)
    requires
        0 < b,
        -0x4000_0000_0000_0000_0000_0000_0000_0000 < a,
    ensures
        r == div0_s(a as int, b as int),
{
    if a >= 0 {
        let q: u128 = (a as u128) / (b as u128);
        proof {
            vstd::arithmetic::div_mod::lemma_div_is_ordered(q as int, a as int, 1);
            vstd::arithmetic::div_mod::lemma_div_nonincreasing(a as int, b as int);
        }
        q as i128
    } else {
        let q: u128 = ((-a) as u128) / (b as u128);
        proof {
            vstd::arithmetic::div_mod::lemma_div_nonincreasing((-a) as int, b as int);
        }
        -(q as i128)
    }
}

/// Saturate a wide intermediate into the fixed-point range.
pub fn clamp128(x: i128) -> (r: i64)
    ensures
        r == clamp_s(x as int),
        fx_ok(r),
{
    if x > FX_MAX as i128 {
        FX_MAX
    } else if x < FX_MIN as i128 {
        FX_MIN
    } else {
        x as i64
    }
}

/// Pi in fixed point, rounded to the nearest representable scalar.
pub const FX_PI: i64 = 205887;

/// Two pi in fixed point, rounded to the nearest representable scalar.
pub const FX_TAU: i64 = 411775;

/// Pi / 2 in fixed point, rounded to the nearest representable scalar.
pub const FX_HALF_PI: i64 = 102944;

/// Saturate to the unit interval `[-1, 1]` in fixed point.
pub open spec fn clamp_one_s(x: int) -> int {
    if x > FX_ONE as int {
        FX_ONE as int
    } else if x < -(FX_ONE as int) {
        -(FX_ONE as int)
    } else {
        x
    }
}

/// The sine approximation on `[0, FX_PI]`: the rational approximation
/// `16 x (pi - x) / (5 pi^2 - 4 x (pi - x))` of Bhaskara I, evaluated in
/// fixed point and saturated to the unit interval.
pub open spec fn sin_pos_s(x: int) -> int {
    let t = div0_s(x * ((FX_PI as int) - x), FX_ONE as int);
    let pi2 = div0_s((FX_PI as int) * (FX_PI as int), FX_ONE as int);
    clamp_one_s(fx_div_s(16 * t, 5 * pi2 - 4 * t))
}

/// Sine of any fixed-point angle in radians: the angle is reduced into
/// `[0, 2 pi)` and the half-turn approximation is applied with its sign.
pub open spec fn sin_s(a: int) -> int {
    let r = a % (FX_TAU as int);
    if r < FX_PI as int {
        sin_pos_s(r)
    } else {
        -sin_pos_s(r - FX_PI as int)
    }
}

/// Cosine as the sine of the angle advanced by a quarter turn.
pub open spec fn cos_s(a: int) -> int {
    sin_s(a + FX_HALF_PI as int)
}

/// Saturate a scalar to the fixed-point unit interval.
pub fn fx_clamp_one(x: i64) -> (r: i64)
    ensures
        r == clamp_one_s(x as int),
        -FX_ONE <= r <= FX_ONE,
{
    if x > FX_ONE {
        FX_ONE
    } else if x < -FX_ONE {
        -FX_ONE
    } else {
        x
    }
}

/// The half-turn sine approximation on `[0, FX_PI]`.
fn sin_pos(x: i64) -> (r: i64)
    requires
        0 <= x <= FX_PI,
    ensures
        r == sin_pos_s(x as int),
        -FX_ONE <= r <= FX_ONE,
{
    let pim = FX_PI - x;
    proof {
        assert((x as int) * (pim as int) <= 205887int * 205887int) by (nonlinear_arith)
            requires
                0 <= x as int <= 205887,
                0 <= pim as int <= 205887,
        ;
        assert((x as int) * (pim as int) >= 0) by (nonlinear_arith)
            requires
                0 <= x as int,
                0 <= pim as int,
        ;
        vstd::arithmetic::div_mod::lemma_div_is_ordered(
            (x as int) * (pim as int), 205887int * 205887int, FX_ONE as int);
    }
    let t = fx_mul(x, pim);
    let pi2 = fx_mul(FX_PI, FX_PI);
    let num = 16 * t;
    let den = 5 * pi2 - 4 * t;
    let q = fx_div(num, den);
    fx_clamp_one(q)
}

/// Sine of a fixed-point angle in radians.
pub fn fx_sin(a: i64) -> (r: i64)
    requires
        fx_ok(a),
    ensures
        r == sin_s(a as int),
        -FX_ONE <= r <= FX_ONE,
{
    let (_q, rem) = euclid_div_rem(a, FX_TAU);
    proof {
        vstd::arithmetic::div_mod::lemma_small_mod(rem as nat, FX_TAU as nat);
    }
    if rem < FX_PI {
        sin_pos(rem)
    } else {
        let v = sin_pos(rem - FX_PI);
        -v
    }
}

/// Cosine of a fixed-point angle in radians.
pub fn fx_cos(a: i64) -> (r: i64)
    requires
        fx_ok(a),
    ensures
        r == cos_s(a as int),
        -FX_ONE <= r <= FX_ONE,
{
    let (_q, r1) = euclid_div_rem(a, FX_TAU);
    let sum = r1 + FX_HALF_PI;
    let r2 = if sum >= FX_TAU {
        sum - FX_TAU
    } else {
        sum
    };
    proof {
        let t = FX_TAU as int;
        let h = FX_HALF_PI as int;
        vstd::arithmetic::div_mod::lemma_small_mod(h as nat, t as nat);
        vstd::arithmetic::div_mod::lemma_add_mod_noop(a as int, h, t);
        if sum >= FX_TAU {
            vstd::arithmetic::div_mod::lemma_mod_sub_multiples_vanish(sum as int, t);
            vstd::arithmetic::div_mod::lemma_small_mod((sum - FX_TAU) as nat, t as nat);
        } else {
            vstd::arithmetic::div_mod::lemma_small_mod(sum as nat, t as nat);
        }
        assert(r2 as int == (a as int + h) % t);
        vstd::arithmetic::div_mod::lemma_small_mod(r2 as nat, t as nat);
    }
    if r2 < FX_PI {
        sin_pos(r2)
    } else {
        let v = sin_pos(r2 - FX_PI);
        -v
    }
}

} // verus!
