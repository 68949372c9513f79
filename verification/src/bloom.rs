//! The bloom post-process: bright-pass extraction, an approximately
//! Gaussian separable blur, and a saturating composite back onto the frame.
//! The stage is a pure function of the color buffer alone; it never touches
//! the depth buffer.

use vstd::prelude::*;
use crate::color::red_s;
use crate::color::green_s;
use crate::color::blue_s;
use crate::color::pack_s;
use crate::color::lum_s;
use crate::color::sat_add_s;
use crate::color::channels;
use crate::color::pack;
use crate::color::lum;
use crate::color::sat_add;
use crate::color::lemma_pack_channels;
use crate::color::lemma_sat_add_zero;
use crate::framebuffer::Framebuffer;
use crate::framebuffer::lemma_idx_bound;

verus! {

/// Luminance threshold of the bright pass: only pixels at least this bright
/// feed the glow.
pub const BLOOM_THRESHOLD: u32 = 180;

/// Every stored color is a packed RGB word.
pub open spec fn colors_wf_s(buf: Seq<u32>) -> bool {
    forall|i: int| 0 <= i < buf.len() ==> buf[i] <= 0xFF_FFFF
}

/// The pixel at `(x, y)`, or black outside the image.
pub open spec fn pix_s(buf: Seq<u32>, w: int, h: int, x: int, y: int) -> u32 {
    if 0 <= x < w && 0 <= y < h && 0 <= y * w + x < buf.len() {
        buf[y * w + x]
    } else {
        0
    }
}

/// One pixel of the bright pass: kept exactly when its luminance reaches
/// the threshold, black otherwise.
pub open spec fn bright_pix_s(c: u32, thr: u32) -> u32 {
    if lum_s(c as int) >= thr {
        c
    } else {
        0u32
    }
}

/// The bright-pass buffer.
pub open spec fn bright_pass_s(buf: Seq<u32>, thr: u32) -> Seq<u32> {
    Seq::new(buf.len(), |i: int| bright_pix_s(buf[i], thr))
}

/// One channel of the 1-2-1 kernel, normalized by truncating division.
pub open spec fn blur3_s(a: int, b: int, c: int) -> int {
    (a + 2 * b + c) / 4
}

/// The 1-2-1 kernel applied channel-wise to three packed colors.
pub open spec fn blur_pix_s(a: u32, b: u32, c: u32) -> int {
    pack_s(
        blur3_s(red_s(a as int), red_s(b as int), red_s(c as int)),
        blur3_s(green_s(a as int), green_s(b as int), green_s(c as int)),
        blur3_s(blue_s(a as int), blue_s(b as int), blue_s(c as int)),
    )
}

/// The horizontal blur pass, with black beyond the image edges.
pub open spec fn blur_h_s(buf: Seq<u32>, w: int, h: int) -> Seq<u32> {
    Seq::new(
        buf.len(),
        |i: int| blur_pix_s(
            pix_s(buf, w, h, i % w - 1, i / w),
            pix_s(buf, w, h, i % w, i / w),
            pix_s(buf, w, h, i % w + 1, i / w),
        ) as u32,
    )
}

/// The vertical blur pass, with black beyond the image edges.
pub open spec fn blur_v_s(buf: Seq<u32>, w: int, h: int) -> Seq<u32> {
    Seq::new(
        buf.len(),
        |i: int| blur_pix_s(
            pix_s(buf, w, h, i % w, i / w - 1),
            pix_s(buf, w, h, i % w, i / w),
            pix_s(buf, w, h, i % w, i / w + 1),
        ) as u32,
    )
}

/// The composite: the glow added onto the original, channel-saturating.
pub open spec fn composite_s(orig: Seq<u32>, glow: Seq<u32>) -> Seq<u32> {
    Seq::new(orig.len(), |i: int| sat_add_s(orig[i], glow[i]) as u32)
}

/// The whole bloom stage as one function of the color buffer.
pub open spec fn bloom_s(buf: Seq<u32>, w: int, h: int, thr: u32) -> Seq<u32> {
    composite_s(buf, blur_v_s(blur_h_s(bright_pass_s(buf, thr), w, h), w, h))
}

/// Extract the pixels at or above the luminance threshold; the rest go
/// black.
pub fn bright_pass(buf: &Vec<u32>, thr: u32) -> (r: Vec<u32>)
    requires
        colors_wf_s(buf@),
    ensures
        r@ == bright_pass_s(buf@, thr),
        colors_wf_s(r@),
{
    let mut r: Vec<u32> = Vec::new();
    let mut k: usize = 0;
    while k < buf.len()
        invariant
            k <= buf.len(),
            colors_wf_s(buf@),
            r@.len() == k,
            forall|i: int| 0 <= i < k ==> r@[i] == bright_pix_s(buf@[i], thr),
        decreases buf.len() - k,
    {
        let c = buf[k];
        let l = lum(c);
        if l >= thr {
            r.push(c);
        } else {
            r.push(0);
        }
        k = k + 1;
    }
    proof {
        assert(r@ =~= bright_pass_s(buf@, thr));
        assert forall|i: int| 0 <= i < r@.len() implies r@[i] <= 0xFF_FFFF by {}
    }
    r
}

/// The three channels of the 1-2-1 kernel over three packed colors.
fn blur_pix(a: u32, b: u32, c: u32) -> (r: u32)
    requires
        a <= 0xFF_FFFF,
        b <= 0xFF_FFFF,
        c <= 0xFF_FFFF,
    ensures
        r == blur_pix_s(a, b, c),
        r <= 0xFF_FFFF,
{
    let (ar, ag, ab) = channels(a);
    let (br, bg, bb) = channels(b);
    let (cr, cg, cb) = channels(c);
    proof {
        vstd::arithmetic::div_mod::lemma_div_is_ordered(
            (ar + 2 * br + cr) as int, 1020, 4);
        vstd::arithmetic::div_mod::lemma_div_is_ordered(
            (ag + 2 * bg + cg) as int, 1020, 4);
        vstd::arithmetic::div_mod::lemma_div_is_ordered(
            (ab + 2 * bb + cb) as int, 1020, 4);
    }
    pack((ar + 2 * br + cr) / 4, (ag + 2 * bg + cg) / 4, (ab + 2 * bb + cb) / 4)
}

/// Fetch a pixel with the out-of-image-is-black rule.
fn pix(buf: &Vec<u32>, w: usize, h: usize, x: usize, y: usize, in_img: bool) -> (c: u32)
    requires
        colors_wf_s(buf@),
        buf@.len() == w * h,
        w <= 4096,
        h <= 4096,
        in_img ==> x < w && y < h,
    ensures
        in_img ==> c == pix_s(buf@, w as int, h as int, x as int, y as int),
        !in_img ==> c == 0,
        c <= 0xFF_FFFF,
{
    if in_img {
        proof {
            lemma_idx_bound(x as int, y as int, w as int, h as int);
        }
        buf[y * w + x]
    } else {
        0
    }
}

/// One blur pass; `vertical` selects the direction of the three taps.
#[verifier::rlimit(100)]
fn blur_pass(buf: &Vec<u32>, w: usize, h: usize, vertical: bool) -> (r: Vec<u32>)
    requires
        colors_wf_s(buf@),
        buf@.len() == w * h,
        w <= 4096,
        h <= 4096,
    ensures
        !vertical ==> r@ == blur_h_s(buf@, w as int, h as int),
        vertical ==> r@ == blur_v_s(buf@, w as int, h as int),
        colors_wf_s(r@),
        r@.len() == buf@.len(),
{
    let mut r: Vec<u32> = Vec::new();
    let mut y: usize = 0;
    while y < h
        invariant
            y <= h,
            colors_wf_s(buf@),
            buf@.len() == w * h,
            w <= 4096,
            h <= 4096,
            r@.len() == y * w,
            forall|j: int| 0 <= j < r@.len() ==> r@[j] == (if vertical {
                blur_v_s(buf@, w as int, h as int)[j]
            } else {
                blur_h_s(buf@, w as int, h as int)[j]
            }),
        decreases h - y,
    {
        let mut x: usize = 0;
        while x < w
            invariant
                x <= w,
                y < h,
                colors_wf_s(buf@),
                buf@.len() == w * h,
                w <= 4096,
                h <= 4096,
                r@.len() == y * w + x,
                forall|j: int| 0 <= j < r@.len() ==> r@[j] == (if vertical {
                    blur_v_s(buf@, w as int, h as int)[j]
                } else {
                    blur_h_s(buf@, w as int, h as int)[j]
                }),
            decreases w - x,
        {
            proof {
                lemma_idx_bound(x as int, y as int, w as int, h as int);
                vstd::arithmetic::div_mod::lemma_fundamental_div_mod_converse(
                    (y * w + x) as int, w as int, y as int, x as int);
            }
            let a: u32;
            let b = pix(buf, w, h, x, y, true);
            let c: u32;
            if vertical {
                a = pix(buf, w, h, x, if y > 0 { y - 1 } else { 0 }, y > 0);
                c = pix(buf, w, h, x, y + 1, y + 1 < h);
            } else {
                a = pix(buf, w, h, if x > 0 { x - 1 } else { 0 }, y, x > 0);
                c = pix(buf, w, h, x + 1, y, x + 1 < w);
            }
            let v = blur_pix(a, b, c);
            r.push(v);
            x = x + 1;
        }
        y = y + 1;
        proof {
            assert(y * w == (y - 1) * w + w) by (nonlinear_arith);
        }
    }
    proof {
        assert(r@.len() == h * w);
        assert(h * w == w * h) by (nonlinear_arith);
        if vertical {
            assert(r@ =~= blur_v_s(buf@, w as int, h as int));
        } else {
            assert(r@ =~= blur_h_s(buf@, w as int, h as int));
        }
    }
    r
}

/// Add the glow buffer onto the original, channel-saturating.
fn composite(orig: &Vec<u32>, glow: &Vec<u32>) -> (r: Vec<u32>)
    requires
        colors_wf_s(orig@),
        colors_wf_s(glow@),
        orig@.len() == glow@.len(),
    ensures
        r@ == composite_s(orig@, glow@),
        colors_wf_s(r@),
{
    let mut r: Vec<u32> = Vec::new();
    let mut k: usize = 0;
    while k < orig.len()
        invariant
            k <= orig.len(),
            colors_wf_s(orig@),
            colors_wf_s(glow@),
            orig@.len() == glow@.len(),
            r@.len() == k,
            forall|i: int| 0 <= i < k ==> r@[i] == sat_add_s(orig@[i], glow@[i]) as u32,
        decreases orig.len() - k,
    {
        let v = sat_add(orig[k], glow[k]);
        r.push(v);
        k = k + 1;
    }
    proof {
        assert(r@ =~= composite_s(orig@, glow@));
    }
    r
}

/// Run the whole bloom stage on a framebuffer's color buffer in place. The
/// depth buffer, sizes and registers are untouched.
pub fn apply_bloom(fb: &mut Framebuffer)
    requires
        old(fb).wf(),
    ensures
        final(fb).wf(),
        final(fb).same_shape(*old(fb)),
        final(fb).depth@ == old(fb).depth@,
        final(fb).color@ == bloom_s(
            old(fb).color@, old(fb).width as int, old(fb).height as int, BLOOM_THRESHOLD),
{
    let bright = bright_pass(&fb.color, BLOOM_THRESHOLD);
    let gh = blur_pass(&bright, fb.width, fb.height, false);
    let gv = blur_pass(&gh, fb.width, fb.height, true);
    let out = composite(&fb.color, &gv);
    fb.color = out;
}

/// The total luminance of the first `k` pixels of a buffer.
pub open spec fn sum_lum_s(buf: Seq<u32>, k: nat) -> int
    decreases k,
{
    if k == 0 {
        0
    } else {
        sum_lum_s(buf, (k - 1) as nat) + lum_s(buf[k as int - 1] as int)
    }
}

/// The luminance of a non-negative color word is non-negative.
proof fn lemma_lum_nonneg(c: int)
    requires
        0 <= c,
    ensures
        0 <= lum_s(c),
{
    vstd::arithmetic::div_mod::lemma_div_pos_is_pos(c, 0x1_0000);
    vstd::arithmetic::div_mod::lemma_div_pos_is_pos(c, 0x100);
    vstd::arithmetic::div_mod::lemma_div_pos_is_pos(
        299 * red_s(c) + 587 * green_s(c) + 114 * blue_s(c), 1000);
}

/// Prefix luminance totals grow with the prefix.
proof fn lemma_sum_lum_mono(buf: Seq<u32>, k1: nat, k2: nat)
    requires
        k1 <= k2,
        k2 <= buf.len(),
    ensures
        sum_lum_s(buf, k1) <= sum_lum_s(buf, k2),
    decreases k2 - k1,
{
    if k1 < k2 {
        lemma_sum_lum_mono(buf, k1, (k2 - 1) as nat);
        lemma_lum_nonneg(buf[k2 as int - 1] as int);
    }
}

/// A flat index splits into a row and column inside the image.
proof fn lemma_flat_index(w: int, h: int, i: int)
    requires
        0 < w,
        0 < h,
        0 <= i < w * h,
    ensures
        0 <= i % w < w,
        0 <= i / w < h,
        (i / w) * w + (i % w) == i,
{
    vstd::arithmetic::div_mod::lemma_fundamental_div_mod(i, w);
    assert(w * h - 1 == (h - 1) * w + (w - 1)) by (nonlinear_arith);
    vstd::arithmetic::div_mod::lemma_fundamental_div_mod_converse(
        w * h - 1, w, h - 1, w - 1);
    vstd::arithmetic::div_mod::lemma_div_is_ordered(i, w * h - 1, w);
    assert((i / w) * w == w * (i / w)) by (nonlinear_arith);
}

/// The 1-2-1 kernel dilutes luminance: four times the blurred pixel's
/// luminance is at most the weighted tap luminances plus the rounding
/// slack of the two truncating divisions.
proof fn lemma_blur_pix_lum(a: u32, b: u32, c: u32)
    requires
        a <= 0xFF_FFFF,
        b <= 0xFF_FFFF,
        c <= 0xFF_FFFF,
    ensures
        4 * lum_s(blur_pix_s(a, b, c)) <= lum_s(a as int) + 2 * lum_s(b as int)
            + lum_s(c as int) + 3,
        0 <= blur_pix_s(a, b, c) <= 0xFF_FFFF,
{
    lemma_pack_channels(a as int);
    lemma_pack_channels(b as int);
    lemma_pack_channels(c as int);
    let nr = red_s(a as int) + 2 * red_s(b as int) + red_s(c as int);
    let ng = green_s(a as int) + 2 * green_s(b as int) + green_s(c as int);
    let nb = blue_s(a as int) + 2 * blue_s(b as int) + blue_s(c as int);
    vstd::arithmetic::div_mod::lemma_fundamental_div_mod(nr, 4);
    vstd::arithmetic::div_mod::lemma_fundamental_div_mod(ng, 4);
    vstd::arithmetic::div_mod::lemma_fundamental_div_mod(nb, 4);
    vstd::arithmetic::div_mod::lemma_div_is_ordered(nr, 1020, 4);
    vstd::arithmetic::div_mod::lemma_div_is_ordered(ng, 1020, 4);
    vstd::arithmetic::div_mod::lemma_div_is_ordered(nb, 1020, 4);
    vstd::arithmetic::div_mod::lemma_div_pos_is_pos(nr, 4);
    vstd::arithmetic::div_mod::lemma_div_pos_is_pos(ng, 4);
    vstd::arithmetic::div_mod::lemma_div_pos_is_pos(nb, 4);
    crate::color::lemma_unpack_pack(nr / 4, ng / 4, nb / 4);
    let x = 299 * (nr / 4) + 587 * (ng / 4) + 114 * (nb / 4);
    let la = 299 * red_s(a as int) + 587 * green_s(a as int) + 114 * blue_s(a as int);
    let lb = 299 * red_s(b as int) + 587 * green_s(b as int) + 114 * blue_s(b as int);
    let lc = 299 * red_s(c as int) + 587 * green_s(c as int) + 114 * blue_s(c as int);
    vstd::arithmetic::div_mod::lemma_fundamental_div_mod(x, 1000);
    vstd::arithmetic::div_mod::lemma_fundamental_div_mod(la, 1000);
    vstd::arithmetic::div_mod::lemma_fundamental_div_mod(lb, 1000);
    vstd::arithmetic::div_mod::lemma_fundamental_div_mod(lc, 1000);
}

/// The running luminance of the tap shifted by `(dx, dy)` over the first
/// `k` pixels of the scan.
pub open spec fn sum_tap_s(buf: Seq<u32>, w: int, h: int, dx: int, dy: int, k: nat) -> int
    decreases k,
{
    if k == 0 {
        0
    } else {
        sum_tap_s(buf, w, h, dx, dy, (k - 1) as nat)
            + lum_s(pix_s(buf, w, h, (k - 1) % w + dx, (k - 1) / w + dy) as int)
    }
}

/// The centered tap sums exactly the buffer's luminance.
proof fn lemma_sum_tap_center(buf: Seq<u32>, w: int, h: int, k: nat)
    requires
        0 < w,
        0 < h,
        buf.len() == w * h,
        k <= buf.len(),
    ensures
        sum_tap_s(buf, w, h, 0, 0, k) == sum_lum_s(buf, k),
    decreases k,
{
    if k > 0 {
        lemma_sum_tap_center(buf, w, h, (k - 1) as nat);
        lemma_flat_index(w, h, k as int - 1);
    }
}

/// The left tap over `k` pixels never exceeds the first `k - 1` pixels'
/// luminance: each pixel is someone's left neighbor at most once.
proof fn lemma_sum_tap_left(buf: Seq<u32>, w: int, h: int, k: nat)
    requires
        0 < w,
        0 < h,
        buf.len() == w * h,
        k <= buf.len(),
    ensures
        k == 0 ==> sum_tap_s(buf, w, h, -1, 0, k) == 0,
        k >= 1 ==> sum_tap_s(buf, w, h, -1, 0, k) <= sum_lum_s(buf, (k - 1) as nat),
    decreases k,
{
    if k > 0 {
        lemma_sum_tap_left(buf, w, h, (k - 1) as nat);
        let i = k as int - 1;
        lemma_flat_index(w, h, i);
        if i % w == 0 {
            assert(pix_s(buf, w, h, i % w - 1, i / w) == 0u32);
            if k >= 2 {
                lemma_sum_lum_mono(buf, (k - 2) as nat, (k - 1) as nat);
            }
        } else {
            assert((i / w) * w + (i % w - 1) == i - 1);
            assert(pix_s(buf, w, h, i % w - 1, i / w) == buf[i - 1]);
        }
    }
}

/// The right tap over `k` pixels never exceeds the first `k + 1` pixels'
/// luminance (clipped to the buffer).
proof fn lemma_sum_tap_right(buf: Seq<u32>, w: int, h: int, k: nat)
    requires
        0 < w,
        0 < h,
        buf.len() == w * h,
        k <= buf.len(),
    ensures
        sum_tap_s(buf, w, h, 1, 0, k)
            <= sum_lum_s(buf, if k < buf.len() { (k + 1) as nat } else { k }),
    decreases k,
{
    if k == 0 {
        if buf.len() > 0 {
            lemma_sum_lum_mono(buf, 0, 1);
        }
    } else {
        lemma_sum_tap_right(buf, w, h, (k - 1) as nat);
        let i = k as int - 1;
        lemma_flat_index(w, h, i);
        if i % w + 1 < w {
            assert((i / w) * w + (i % w + 1) == i + 1);
            assert(0 <= i + 1 < w * h) by (nonlinear_arith)
                requires
                    (i / w) * w + (i % w) == i,
                    0 <= i % w,
                    i % w + 1 < w,
                    0 <= i / w <= h - 1,
                    0 < w,
            ;
            assert(pix_s(buf, w, h, i % w + 1, i / w) == buf[i + 1]);
            if k == buf.len() {
                assert(i % w + 1 < w && i + 1 < w * h);
                assert(false);
            }
        } else {
            assert(pix_s(buf, w, h, i % w + 1, i / w) == 0u32);
            if k < buf.len() {
                lemma_sum_lum_mono(buf, k, (k + 1) as nat);
            }
        }
    }
}

/// The upward tap over `k` pixels never exceeds the luminance of the
/// pixels one row back.
proof fn lemma_sum_tap_up(buf: Seq<u32>, w: int, h: int, k: nat)
    requires
        0 < w,
        0 < h,
        buf.len() == w * h,
        k <= buf.len(),
    ensures
        sum_tap_s(buf, w, h, 0, -1, k)
            <= sum_lum_s(buf, if k >= w { (k - w) as nat } else { 0 }),
    decreases k,
{
    if k > 0 {
        lemma_sum_tap_up(buf, w, h, (k - 1) as nat);
        let i = k as int - 1;
        lemma_flat_index(w, h, i);
        if i >= w {
            assert(i / w >= 1) by {
                if i / w == 0 {
                    assert((i / w) * w + (i % w) == i);
                }
            }
            assert((i / w - 1) * w + (i % w) == i - w) by (nonlinear_arith)
                requires
                    (i / w) * w + (i % w) == i,
            ;
            assert(0 <= i / w - 1 < h);
            assert(pix_s(buf, w, h, i % w, i / w - 1) == buf[i - w]);
            assert(k as int - 1 >= w ==> (k - 1 - w) as nat + 1 == (k - w) as nat);
        } else {
            assert(i / w == 0) by {
                if i / w >= 1 {
                    assert((i / w) * w >= w) by (nonlinear_arith)
                        requires
                            i / w >= 1,
                            w > 0,
                    ;
                }
            }
            assert(pix_s(buf, w, h, i % w, i / w - 1) == 0u32);
            if k >= w {
                lemma_sum_lum_mono(buf, 0, (k - w) as nat);
            }
        }
    }
}

/// The downward tap over `k` pixels never exceeds the luminance of the
/// pixels one row ahead (clipped to the buffer).
proof fn lemma_sum_tap_down(buf: Seq<u32>, w: int, h: int, k: nat)
    requires
        0 < w,
        0 < h,
        buf.len() == w * h,
        k <= buf.len(),
    ensures
        sum_tap_s(buf, w, h, 0, 1, k)
            <= sum_lum_s(buf, if k + w <= buf.len() { (k + w) as nat } else { buf.len() }),
    decreases k,
{
    if k == 0 {
        lemma_sum_lum_mono(buf, 0, if w <= buf.len() as int { w as nat } else { buf.len() });
    } else {
        lemma_sum_tap_down(buf, w, h, (k - 1) as nat);
        let i = k as int - 1;
        lemma_flat_index(w, h, i);
        if i / w + 1 < h {
            assert((i / w + 1) * w + (i % w) == i + w) by (nonlinear_arith)
                requires
                    (i / w) * w + (i % w) == i,
            ;
            assert(i + w < w * h) by (nonlinear_arith)
                requires
                    (i / w + 1) * w + (i % w) == i + w,
                    i / w + 1 <= h - 1,
                    0 <= i % w < w,
                    0 < w,
            ;
            assert(pix_s(buf, w, h, i % w, i / w + 1) == buf[i + w]);
        } else {
            assert(pix_s(buf, w, h, i % w, i / w + 1) == 0u32);
            if k + w <= buf.len() {
                lemma_sum_lum_mono(buf, (k - 1 + w) as nat, (k + w) as nat);
            } else if k - 1 + w <= buf.len() {
                lemma_sum_lum_mono(buf, (k - 1 + w) as nat, buf.len());
            }
        }
    }
}

/// Four times a blur pass's running luminance is bounded by its three
/// weighted tap sums plus the rounding slack.
proof fn lemma_blur_pass_lum(buf: Seq<u32>, w: int, h: int, vertical: bool, k: nat)
    requires
        0 < w,
        0 < h,
        buf.len() == w * h,
        colors_wf_s(buf),
        k <= buf.len(),
    ensures
        !vertical ==> 4 * sum_lum_s(blur_h_s(buf, w, h), k)
            <= sum_tap_s(buf, w, h, -1, 0, k) + 2 * sum_tap_s(buf, w, h, 0, 0, k)
                + sum_tap_s(buf, w, h, 1, 0, k) + 3 * k,
        vertical ==> 4 * sum_lum_s(blur_v_s(buf, w, h), k)
            <= sum_tap_s(buf, w, h, 0, -1, k) + 2 * sum_tap_s(buf, w, h, 0, 0, k)
                + sum_tap_s(buf, w, h, 0, 1, k) + 3 * k,
    decreases k,
{
    if k > 0 {
        lemma_blur_pass_lum(buf, w, h, vertical, (k - 1) as nat);
        let i = k as int - 1;
        if !vertical {
            let a = pix_s(buf, w, h, i % w - 1, i / w);
            let b = pix_s(buf, w, h, i % w, i / w);
            let c = pix_s(buf, w, h, i % w + 1, i / w);
            lemma_blur_pix_lum(a, b, c);
            assert(blur_h_s(buf, w, h)[i] == blur_pix_s(a, b, c) as u32);
        } else {
            let a = pix_s(buf, w, h, i % w, i / w - 1);
            let b = pix_s(buf, w, h, i % w, i / w);
            let c = pix_s(buf, w, h, i % w, i / w + 1);
            lemma_blur_pix_lum(a, b, c);
            assert(blur_v_s(buf, w, h)[i] == blur_pix_s(a, b, c) as u32);
        }
    }
}

/// Blur energy bound, one pass: a blur pass adds at most one unit of
/// luminance per pixel (the truncating kernel normalization) to the
/// buffer's total, and the clipped edges only lose energy.
proof fn lemma_blur_pass_energy(buf: Seq<u32>, w: int, h: int, vertical: bool)
    requires
        0 < w,
        0 < h,
        buf.len() == w * h,
        colors_wf_s(buf),
    ensures
        !vertical ==> sum_lum_s(blur_h_s(buf, w, h), buf.len())
            <= sum_lum_s(buf, buf.len()) + buf.len(),
        vertical ==> sum_lum_s(blur_v_s(buf, w, h), buf.len())
            <= sum_lum_s(buf, buf.len()) + buf.len(),
{
    let n = buf.len();
    lemma_blur_pass_lum(buf, w, h, vertical, n);
    lemma_sum_tap_center(buf, w, h, n);
    if !vertical {
        lemma_sum_tap_left(buf, w, h, n);
        lemma_sum_tap_right(buf, w, h, n);
        if n >= 1 {
            lemma_sum_lum_mono(buf, (n - 1) as nat, n);
        }
    } else {
        lemma_sum_tap_up(buf, w, h, n);
        lemma_sum_tap_down(buf, w, h, n);
        if n >= w {
            lemma_sum_lum_mono(buf, (n - w) as nat, n);
        } else {
            lemma_sum_lum_mono(buf, 0, n);
        }
    }
}

/// A blur pass keeps colors well-formed.
proof fn lemma_blur_pass_wf(buf: Seq<u32>, w: int, h: int, vertical: bool)
    requires
        colors_wf_s(buf),
    ensures
        !vertical ==> colors_wf_s(blur_h_s(buf, w, h)),
        vertical ==> colors_wf_s(blur_v_s(buf, w, h)),
{
    if !vertical {
        let out = blur_h_s(buf, w, h);
        assert forall|i: int| 0 <= i < out.len() implies out[i] <= 0xFF_FFFF by {
            lemma_blur_pix_lum(
                pix_s(buf, w, h, i % w - 1, i / w),
                pix_s(buf, w, h, i % w, i / w),
                pix_s(buf, w, h, i % w + 1, i / w));
        }
    } else {
        let out = blur_v_s(buf, w, h);
        assert forall|i: int| 0 <= i < out.len() implies out[i] <= 0xFF_FFFF by {
            lemma_blur_pix_lum(
                pix_s(buf, w, h, i % w, i / w - 1),
                pix_s(buf, w, h, i % w, i / w),
                pix_s(buf, w, h, i % w, i / w + 1));
        }
    }
}

/// Blur energy bound: the total luminance of the blurred bright-pass
/// buffer never exceeds the total luminance of its un-blurred input by
/// more than the kernel-normalization rounding slack (one luminance unit
/// per pixel and pass); the truncating kernel and the clipped image edges
/// can only lose energy beyond that.
pub proof fn lemma_blur_energy_bound(buf: Seq<u32>, w: int, h: int, thr: u32)
    requires
        0 < w,
        0 < h,
        buf.len() == w * h,
        colors_wf_s(buf),
    ensures
        sum_lum_s(
            blur_v_s(blur_h_s(bright_pass_s(buf, thr), w, h), w, h),
            buf.len(),
        ) <= sum_lum_s(bright_pass_s(buf, thr), buf.len()) + 2 * buf.len(),
{
    let bp = bright_pass_s(buf, thr);
    assert(colors_wf_s(bp));
    lemma_blur_pass_energy(bp, w, h, false);
    lemma_blur_pass_wf(bp, w, h, false);
    lemma_blur_pass_energy(blur_h_s(bp, w, h), w, h, true);
}

/// Bloom identity: on a buffer where no pixel's luminance reaches the
/// threshold, the bright pass is all black, the blurred glow is all black,
/// and the composite returns the buffer unchanged.
pub proof fn lemma_bloom_identity(buf: Seq<u32>, w: int, h: int, thr: u32)
    requires
        colors_wf_s(buf),
        forall|i: int| 0 <= i < buf.len() ==> lum_s(buf[i] as int) < thr,
    ensures
        bloom_s(buf, w, h, thr) == buf,
{
    let bp = bright_pass_s(buf, thr);
    assert forall|i: int| 0 <= i < bp.len() implies bp[i] == 0u32 by {}
    let bh = blur_h_s(bp, w, h);
    assert forall|i: int| 0 <= i < bh.len() implies bh[i] == 0u32 by {
        assert(pix_s(bp, w, h, i % w - 1, i / w) == 0u32);
        assert(pix_s(bp, w, h, i % w, i / w) == 0u32);
        assert(pix_s(bp, w, h, i % w + 1, i / w) == 0u32);
        assert(blur_pix_s(0u32, 0u32, 0u32) == 0);
    }
    let bv = blur_v_s(bh, w, h);
    assert forall|i: int| 0 <= i < bv.len() implies bv[i] == 0u32 by {
        assert(pix_s(bh, w, h, i % w, i / w - 1) == 0u32);
        assert(pix_s(bh, w, h, i % w, i / w) == 0u32);
        assert(pix_s(bh, w, h, i % w, i / w + 1) == 0u32);
        assert(blur_pix_s(0u32, 0u32, 0u32) == 0);
    }
    let comp = composite_s(buf, bv);
    assert forall|i: int| 0 <= i < comp.len() implies comp[i] == buf[i] by {
        lemma_sat_add_zero(buf[i]);
    }
    assert(comp =~= buf);
}

} // verus!
