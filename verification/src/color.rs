//! Packed `0x00RRGGBB` color words: channel access, packing, luminance,
//! brightness scaling and saturating addition. Channels are defined with
//! division and remainder so that all reasoning stays in plain arithmetic.

use vstd::prelude::*;
use crate::fixed::FX_ONE;

verus! {

/// The red channel of a packed color.
pub open spec fn red_s(c: int) -> int {
    c / 0x1_0000
}

/// The green channel of a packed color.
pub open spec fn green_s(c: int) -> int {
    (c / 0x100) % 0x100
}

/// The blue channel of a packed color.
pub open spec fn blue_s(c: int) -> int {
    c % 0x100
}

/// Pack three channels into a color word.
pub open spec fn pack_s(r: int, g: int, b: int) -> int {
    r * 0x1_0000 + g * 0x100 + b
}

/// Rec. 601 integer luminance of a packed color, in `[0, 255]`.
pub open spec fn lum_s(c: int) -> int {
    (299 * red_s(c) + 587 * green_s(c) + 114 * blue_s(c)) / 1000
}

/// Packing the channels of a well-formed color word gives it back.
pub proof fn lemma_pack_channels(c: int)
    requires
        0 <= c <= 0xFF_FFFF,
    ensures
        pack_s(red_s(c), green_s(c), blue_s(c)) == c,
        0 <= red_s(c) < 0x100,
        0 <= green_s(c) < 0x100,
        0 <= blue_s(c) < 0x100,
{
    vstd::arithmetic::div_mod::lemma_fundamental_div_mod(c, 0x1_0000);
    vstd::arithmetic::div_mod::lemma_mod_breakdown(c, 0x100, 0x100);
    vstd::arithmetic::div_mod::lemma_div_is_ordered(c, 0xFF_FFFF, 0x1_0000);
}

/// The channels of a packed color word.
pub fn channels(c: u32) -> (r: (u32, u32, u32))
    requires
        c <= 0xFF_FFFF,
    ensures
        r.0 == red_s(c as int),
        r.1 == green_s(c as int),
        r.2 == blue_s(c as int),
        r.0 < 0x100,
        r.1 < 0x100,
        r.2 < 0x100,
{
    proof {
        lemma_pack_channels(c as int);
    }
    (c / 0x1_0000, (c / 0x100) % 0x100, c % 0x100)
}

/// Pack three channels into a color word.
pub fn pack(r: u32, g: u32, b: u32) -> (c: u32)
    requires
        r < 0x100,
        g < 0x100,
        b < 0x100,
    ensures
        c == pack_s(r as int, g as int, b as int),
        c <= 0xFF_FFFF,
{
    r * 0x1_0000 + g * 0x100 + b
}

/// Luminance of a packed color.
pub fn lum(c: u32) -> (l: u32)
    requires
        c <= 0xFF_FFFF,
    ensures
        l == lum_s(c as int),
        l <= 255,
{
    let (r, g, b) = channels(c);
    let n = 299 * r + 587 * g + 114 * b;
    proof {
        vstd::arithmetic::div_mod::lemma_div_is_ordered(n as int, 255000, 1000);
    }
    n / 1000
}

/// One channel scaled by a fixed-point factor in `[0, 1]`.
pub open spec fn scale_channel_s(ch: int, t: int) -> int {
    (ch * t) / (FX_ONE as int)
}

/// A packed color with every channel scaled by a fixed-point factor in
/// `[0, 1]` (the Lambertian darkening step).
pub open spec fn scale_color_s(c: u32, t: int) -> int {
    pack_s(
        scale_channel_s(red_s(c as int), t),
        scale_channel_s(green_s(c as int), t),
        scale_channel_s(blue_s(c as int), t),
    )
}

fn scale_channel(ch: u32, t: i64) -> (r: u32)
    requires
        ch < 0x100,
        0 <= t <= FX_ONE,
    ensures
        r == scale_channel_s(ch as int, t as int),
        r < 0x100,
{
    proof {
        assert((ch as int) * (t as int) <= 255 * (FX_ONE as int)
            && 0 <= (ch as int) * (t as int)) by (nonlinear_arith)
            requires
                0 <= ch as int <= 255,
                0 <= t as int <= FX_ONE as int,
        ;
    }
    let p: u64 = (ch as u64) * (t as u64);
    proof {
        vstd::arithmetic::div_mod::lemma_div_is_ordered(
            p as int, 255 * (FX_ONE as int), FX_ONE as int);
    }
    (p / 65536) as u32
}

/// Scale a packed color's brightness by a fixed-point factor in `[0, 1]`.
pub fn scale_color(c: u32, t: i64) -> (r: u32)
    requires
        c <= 0xFF_FFFF,
        0 <= t <= FX_ONE,
    ensures
        r == scale_color_s(c, t as int),
        r <= 0xFF_FFFF,
{
    let (cr, cg, cb) = channels(c);
    pack(scale_channel(cr, t), scale_channel(cg, t), scale_channel(cb, t))
}

/// Scaling a well-formed color by 1 leaves it unchanged.
pub proof fn lemma_scale_one(c: u32)
    requires
        c <= 0xFF_FFFF,
    ensures
        scale_color_s(c, FX_ONE as int) == c as int,
{
    lemma_pack_channels(c as int);
    vstd::arithmetic::div_mod::lemma_div_by_multiple(red_s(c as int), FX_ONE as int);
    vstd::arithmetic::div_mod::lemma_div_by_multiple(green_s(c as int), FX_ONE as int);
    vstd::arithmetic::div_mod::lemma_div_by_multiple(blue_s(c as int), FX_ONE as int);
}

/// One channel of a saturating channel-wise addition.
pub open spec fn sat_channel_s(a: int, b: int) -> int {
    if a + b > 255 {
        255
    } else {
        a + b
    }
}

/// Channel-wise saturating addition of two packed colors (the lighten
/// blend of the bloom composite): each channel saturates at the maximum
/// representable value instead of wrapping.
pub open spec fn sat_add_s(a: u32, b: u32) -> int {
    pack_s(
        sat_channel_s(red_s(a as int), red_s(b as int)),
        sat_channel_s(green_s(a as int), green_s(b as int)),
        sat_channel_s(blue_s(a as int), blue_s(b as int)),
    )
}

fn sat_channel(a: u32, b: u32) -> (r: u32)
    requires
        a < 0x100,
        b < 0x100,
    ensures
        r == sat_channel_s(a as int, b as int),
        r < 0x100,
{
    if a + b > 255 {
        255
    } else {
        a + b
    }
}

/// Add two packed colors channel-wise, saturating at the channel maximum.
pub fn sat_add(a: u32, b: u32) -> (r: u32)
    requires
        a <= 0xFF_FFFF,
        b <= 0xFF_FFFF,
    ensures
        r == sat_add_s(a, b),
        r <= 0xFF_FFFF,
{
    let (ar, ag, ab) = channels(a);
    let (br, bg, bb) = channels(b);
    pack(sat_channel(ar, br), sat_channel(ag, bg), sat_channel(ab, bb))
}

/// Packing three in-range channels and reading them back is the identity.
pub proof fn lemma_unpack_pack(r: int, g: int, b: int)
    requires
        0 <= r < 0x100,
        0 <= g < 0x100,
        0 <= b < 0x100,
    ensures
        red_s(pack_s(r, g, b)) == r,
        green_s(pack_s(r, g, b)) == g,
        blue_s(pack_s(r, g, b)) == b,
        0 <= pack_s(r, g, b) <= 0xFF_FFFF,
{
    let c = pack_s(r, g, b);
    vstd::arithmetic::div_mod::lemma_fundamental_div_mod_converse(
        c, 0x1_0000, r, g * 0x100 + b);
    vstd::arithmetic::div_mod::lemma_fundamental_div_mod_converse(
        c, 0x100, r * 0x100 + g, b);
    vstd::arithmetic::div_mod::lemma_fundamental_div_mod_converse(
        r * 0x100 + g, 0x100, r, g);
}

/// Adding black to a well-formed color leaves it unchanged (the identity
/// the bloom composite relies on where the glow is empty).
pub proof fn lemma_sat_add_zero(a: u32)
    requires
        a <= 0xFF_FFFF,
    ensures
        sat_add_s(a, 0) == a as int,
{
    lemma_pack_channels(a as int);
    assert(red_s(0) == 0 && green_s(0) == 0 && blue_s(0) == 0);
}

} // verus!
