//! The rasterizer: converts one screen-space triangle into depth-tested
//! fragment commits. It walks the triangle's clamped bounding box; a pixel
//! is covered when all three edge functions admit it under a fixed
//! inclusive rule on boundary pixels, so adjacent triangles neither
//! double-cover nor leave gaps. Depth and the carried attributes are
//! interpolated with perspective-correct weights (each attribute arrives
//! premultiplied by 1/w and is divided by the interpolated 1/w).

use vstd::prelude::*;
use crate::fixed::fx_ok;
use crate::fixed::div0_s;
use crate::fixed::clamp_s;
use crate::fixed::idiv128;
use crate::fixed::clamp128;
use crate::fixed::FX_ONE;
use crate::fixed::FX_MAX;
use crate::linalg::V3;
use crate::framebuffer::Framebuffer;
use crate::framebuffer::Frag;
use crate::framebuffer::commit_seq_s;
use crate::framebuffer::commit1_color_s;
use crate::framebuffer::commit1_depth_s;
use crate::framebuffer::lemma_commit_seq_push;
use crate::shader::Uniforms;
use crate::shader::Fragment;
use crate::shader::shade_s;
use crate::shader::shade;

verus! {

/// A triangle vertex as the rasterizer takes it: whole-pixel screen
/// coordinates, a fixed-point depth, the fixed-point reciprocal of the
/// clip w, and the world-space normal and object-space position, each
/// premultiplied by that reciprocal for perspective-correct interpolation.
#[derive(Clone, Copy, PartialEq, Eq, Structural, Debug)]
pub struct RVert {
    pub px: i64,
    pub py: i64,
    pub z: i64,
    pub iw: i64,
    pub nx: i64,
    pub ny: i64,
    pub nz: i64,
    pub wx: i64,
    pub wy: i64,
    pub wz: i64,
}

/// The vertex's pixel coordinates sit in the guard band and its scalars in
/// the fixed-point range.
pub open spec fn rvert_ok(v: RVert) -> bool {
    &&& -0x10_0000 <= v.px <= 0x10_0000
    &&& -0x10_0000 <= v.py <= 0x10_0000
    &&& fx_ok(v.z) && fx_ok(v.iw)
    &&& fx_ok(v.nx) && fx_ok(v.ny) && fx_ok(v.nz)
    &&& fx_ok(v.wx) && fx_ok(v.wy) && fx_ok(v.wz)
}

/// The edge function: twice the signed area of the triangle `(a, b, p)`.
pub open spec fn edge_s(ax: int, ay: int, bx: int, by: int, px: int, py: int) -> int {
    (bx - ax) * (py - ay) - (by - ay) * (px - ax)
}

/// Evaluate an edge function at a pixel.
fn edge(ax: i64, ay: i64, bx: i64, by: i64, px: i64, py: i64) -> (e: i64)
    requires
        -0x10_0000 <= ax <= 0x10_0000,
        -0x10_0000 <= ay <= 0x10_0000,
        -0x10_0000 <= bx <= 0x10_0000,
        -0x10_0000 <= by <= 0x10_0000,
        -0x10_0000 <= px <= 0x10_0000,
        -0x10_0000 <= py <= 0x10_0000,
    ensures
        e == edge_s(ax as int, ay as int, bx as int, by as int, px as int, py as int),
        -0x2000_0000_0000 <= e <= 0x2000_0000_0000,
{
    proof {
        assert((bx - ax) * (py - ay) <= 0x1000_0000_0000
            && (bx - ax) * (py - ay) >= -0x1000_0000_0000
            && (by - ay) * (px - ax) <= 0x1000_0000_0000
            && (by - ay) * (px - ax) >= -0x1000_0000_0000) by (nonlinear_arith)
            requires
                -0x20_0000 <= bx - ax <= 0x20_0000,
                -0x20_0000 <= py - ay <= 0x20_0000,
                -0x20_0000 <= by - ay <= 0x20_0000,
                -0x20_0000 <= px - ax <= 0x20_0000,
        ;
    }
    (bx - ax) * (py - ay) - (by - ay) * (px - ax)
}

/// The fixed tie rule on boundary pixels: an edge whose function is exactly
/// zero at a pixel counts as inside only for top edges (horizontal, running
/// leftward) and left edges (running upward in screen coordinates).
pub open spec fn top_left_s(ax: int, ay: int, bx: int, by: int) -> bool {
    (ay == by && bx < ax) || by < ay
}

/// A pixel passes one edge when the edge function is positive, or zero on
/// a top-left edge.
pub open spec fn ins_s(e: int, ax: int, ay: int, bx: int, by: int) -> bool {
    e > 0 || (e == 0 && top_left_s(ax, ay, bx, by))
}

/// Twice the signed area of the triangle.
pub open spec fn area_s(a: RVert, b: RVert, c: RVert) -> int {
    edge_s(a.px as int, a.py as int, b.px as int, b.py as int, c.px as int, c.py as int)
}

/// A pixel center is covered when all three edges admit it.
pub open spec fn covered_s(a: RVert, b: RVert, c: RVert, x: int, y: int) -> bool {
    &&& ins_s(
        edge_s(b.px as int, b.py as int, c.px as int, c.py as int, x, y),
        b.px as int, b.py as int, c.px as int, c.py as int)
    &&& ins_s(
        edge_s(c.px as int, c.py as int, a.px as int, a.py as int, x, y),
        c.px as int, c.py as int, a.px as int, a.py as int)
    &&& ins_s(
        edge_s(a.px as int, a.py as int, b.px as int, b.py as int, x, y),
        a.px as int, a.py as int, b.px as int, b.py as int)
}

/// The barycentric weight of each vertex at a pixel: the edge function of
/// the opposite edge.
pub open spec fn w0_s(a: RVert, b: RVert, c: RVert, x: int, y: int) -> int {
    edge_s(b.px as int, b.py as int, c.px as int, c.py as int, x, y)
}

/// See `w0_s`.
pub open spec fn w1_s(a: RVert, b: RVert, c: RVert, x: int, y: int) -> int {
    edge_s(c.px as int, c.py as int, a.px as int, a.py as int, x, y)
}

/// See `w0_s`.
pub open spec fn w2_s(a: RVert, b: RVert, c: RVert, x: int, y: int) -> int {
    edge_s(a.px as int, a.py as int, b.px as int, b.py as int, x, y)
}

/// The interpolated reciprocal clip w at a pixel, before normalization.
pub open spec fn den_s(a: RVert, b: RVert, c: RVert, x: int, y: int) -> int {
    w0_s(a, b, c, x, y) * (a.iw as int) + w1_s(a, b, c, x, y) * (b.iw as int)
        + w2_s(a, b, c, x, y) * (c.iw as int)
}

/// The interpolated depth at a pixel: the barycentric average of the
/// vertex depths, saturated into range.
pub open spec fn depth_s(a: RVert, b: RVert, c: RVert, x: int, y: int) -> int {
    clamp_s(div0_s(
        w0_s(a, b, c, x, y) * (a.z as int) + w1_s(a, b, c, x, y) * (b.z as int)
            + w2_s(a, b, c, x, y) * (c.z as int),
        area_s(a, b, c),
    ))
}

/// One perspective-correct attribute at a pixel: the weighted sum of the
/// premultiplied attribute divided by the interpolated reciprocal w.
pub open spec fn attr_s(a: RVert, b: RVert, c: RVert, x: int, y: int, q0: int, q1: int, q2: int) -> int {
    clamp_s(div0_s(
        (w0_s(a, b, c, x, y) * q0 + w1_s(a, b, c, x, y) * q1 + w2_s(a, b, c, x, y) * q2)
            * (FX_ONE as int),
        den_s(a, b, c, x, y),
    ))
}

/// The fragment a covered pixel produces.
pub open spec fn frag_at_s(a: RVert, b: RVert, c: RVert, x: int, y: int) -> Fragment {
    Fragment {
        x: x as usize,
        y: y as usize,
        depth: depth_s(a, b, c, x, y) as i64,
        normal: V3 {
            x: attr_s(a, b, c, x, y, a.nx as int, b.nx as int, c.nx as int) as i64,
            y: attr_s(a, b, c, x, y, a.ny as int, b.ny as int, c.ny as int) as i64,
            z: attr_s(a, b, c, x, y, a.nz as int, b.nz as int, c.nz as int) as i64,
        },
        obj: V3 {
            x: attr_s(a, b, c, x, y, a.wx as int, b.wx as int, c.wx as int) as i64,
            y: attr_s(a, b, c, x, y, a.wy as int, b.wy as int, c.wy as int) as i64,
            z: attr_s(a, b, c, x, y, a.wz as int, b.wz as int, c.wz as int) as i64,
        },
    }
}

/// What one pixel of the scan submits: a shaded, depth-carrying fragment
/// when the pixel is covered and its interpolated reciprocal w is positive,
/// nothing otherwise.
pub open spec fn pix_frag_s(
    a: RVert, b: RVert, c: RVert, u: Uniforms, fbw: int, x: int, y: int,
) -> Option<Frag> {
    if covered_s(a, b, c, x, y) && den_s(a, b, c, x, y) > 0 {
        Some(Frag {
            i: y * fbw + x,
            depth: depth_s(a, b, c, x, y) as i64,
            color: shade_s(frag_at_s(a, b, c, x, y), u) as u32,
        })
    } else {
        None
    }
}

/// The fragment stream of the first `k` pixels of the bounding-box scan,
/// in row-major order.
pub open spec fn tri_frags_s(
    a: RVert, b: RVert, c: RVert, u: Uniforms, fbw: int,
    x0: int, y0: int, bw: int, k: nat,
) -> Seq<Frag>
    decreases k,
{
    if k == 0 || bw <= 0 {
        Seq::empty()
    } else {
        let prev = tri_frags_s(a, b, c, u, fbw, x0, y0, bw, (k - 1) as nat);
        let x = x0 + (k - 1) % bw;
        let y = y0 + (k - 1) / bw;
        match pix_frag_s(a, b, c, u, fbw, x, y) {
            Some(f) => prev.push(f),
            None => prev,
        }
    }
}

/// The triangle with its winding normalized so that its area is
/// non-negative; a degenerate triangle keeps its order.
pub open spec fn oriented_s(v0: RVert, v1: RVert, v2: RVert) -> (RVert, RVert, RVert) {
    if area_s(v0, v1, v2) < 0 {
        (v0, v2, v1)
    } else {
        (v0, v1, v2)
    }
}

/// The smaller of two pixel coordinates.
pub open spec fn min_s(a: int, b: int) -> int {
    if a < b { a } else { b }
}

/// The larger of two pixel coordinates.
pub open spec fn max_s(a: int, b: int) -> int {
    if a < b { b } else { a }
}

/// The whole fragment stream one triangle submits: its row-major
/// bounding-box scan clamped to the framebuffer, or nothing for a
/// degenerate triangle or a fully clipped box.
pub open spec fn tri_stream_s(
    v0: RVert, v1: RVert, v2: RVert, u: Uniforms, w: int, h: int,
) -> Seq<Frag> {
    let (a, b, c) = oriented_s(v0, v1, v2);
    if area_s(a, b, c) == 0 {
        Seq::empty()
    } else {
        let xlo = max_s(min_s(min_s(a.px as int, b.px as int), c.px as int), 0);
        let xhi = min_s(max_s(max_s(a.px as int, b.px as int), c.px as int), w - 1);
        let ylo = max_s(min_s(min_s(a.py as int, b.py as int), c.py as int), 0);
        let yhi = min_s(max_s(max_s(a.py as int, b.py as int), c.py as int), h - 1);
        if xhi < xlo || yhi < ylo {
            Seq::empty()
        } else {
            let bw = xhi - xlo + 1;
            tri_frags_s(a, b, c, u, w, xlo, ylo, bw, ((yhi - ylo + 1) * bw) as nat)
        }
    }
}

/// What rasterizing one triangle leaves in the color and depth buffers:
/// the commit fold of its fragment stream.
pub open spec fn raster_tri_s(
    cbuf: Seq<u32>, dbuf: Seq<i64>, v0: RVert, v1: RVert, v2: RVert,
    u: Uniforms, w: int, h: int,
) -> (Seq<u32>, Seq<i64>) {
    commit_seq_s(cbuf, dbuf, tri_stream_s(v0, v1, v2, u, w, h))
}

/// The flat index of the scan's pixel number `m`.
pub open spec fn pixidx_s(fbw: int, x0: int, y0: int, bw: int, m: int) -> int {
    (y0 + m / bw) * fbw + x0 + m % bw
}

/// Scan pixel indices grow strictly along the row-major order.
proof fn lemma_pixidx_step(fbw: int, x0: int, y0: int, bw: int, m: int)
    requires
        0 < bw,
        0 <= m,
        0 <= x0,
        x0 + bw <= fbw,
    ensures
        pixidx_s(fbw, x0, y0, bw, m) < pixidx_s(fbw, x0, y0, bw, m + 1),
{
    vstd::arithmetic::div_mod::lemma_fundamental_div_mod(m, bw);
    let q = m / bw;
    let r = m % bw;
    assert(m == q * bw + r) by (nonlinear_arith)
        requires
            m == bw * q + r,
    ;
    if r + 1 < bw {
        vstd::arithmetic::div_mod::lemma_fundamental_div_mod_converse(m + 1, bw, q, r + 1);
    } else {
        assert(m + 1 == (q + 1) * bw + 0) by (nonlinear_arith)
            requires
                m == q * bw + r,
                r == bw - 1,
        ;
        vstd::arithmetic::div_mod::lemma_fundamental_div_mod_converse(m + 1, bw, q + 1, 0);
        assert((y0 + q + 1) * fbw == (y0 + q) * fbw + fbw) by (nonlinear_arith);
    }
}

/// Scan pixel indices are strictly monotone in the pixel number.
proof fn lemma_pixidx_mono(fbw: int, x0: int, y0: int, bw: int, m1: int, m2: int)
    requires
        0 < bw,
        0 <= m1 < m2,
        0 <= x0,
        x0 + bw <= fbw,
    ensures
        pixidx_s(fbw, x0, y0, bw, m1) < pixidx_s(fbw, x0, y0, bw, m2),
    decreases m2 - m1,
{
    lemma_pixidx_step(fbw, x0, y0, bw, m1);
    if m1 + 1 < m2 {
        lemma_pixidx_mono(fbw, x0, y0, bw, m1 + 1, m2);
    }
}

/// The scan's fragment stream addresses strictly increasing pixel indices,
/// so a triangle touches every pixel at most once.
proof fn lemma_tri_frags_unique(
    a: RVert, b: RVert, c: RVert, u: Uniforms, fbw: int,
    x0: int, y0: int, bw: int, k: nat,
)
    requires
        0 < bw,
        0 <= x0,
        0 <= y0,
        x0 + bw <= fbw,
    ensures
        forall|j1: int, j2: int|
            0 <= j1 < j2 < tri_frags_s(a, b, c, u, fbw, x0, y0, bw, k).len()
                ==> tri_frags_s(a, b, c, u, fbw, x0, y0, bw, k)[j1].i
                    < tri_frags_s(a, b, c, u, fbw, x0, y0, bw, k)[j2].i,
        forall|j: int| 0 <= j < tri_frags_s(a, b, c, u, fbw, x0, y0, bw, k).len()
            ==> k > 0 && tri_frags_s(a, b, c, u, fbw, x0, y0, bw, k)[j].i
                <= pixidx_s(fbw, x0, y0, bw, k - 1),
    decreases k,
{
    if k > 0 {
        lemma_tri_frags_unique(a, b, c, u, fbw, x0, y0, bw, (k - 1) as nat);
        let prev = tri_frags_s(a, b, c, u, fbw, x0, y0, bw, (k - 1) as nat);
        let cur = tri_frags_s(a, b, c, u, fbw, x0, y0, bw, k);
        let x = x0 + (k - 1) % bw;
        let y = y0 + (k - 1) / bw;
        if k >= 2 {
            lemma_pixidx_step(fbw, x0, y0, bw, k - 2);
        }
        match pix_frag_s(a, b, c, u, fbw, x, y) {
            Some(f) => {
                assert(f.i == pixidx_s(fbw, x0, y0, bw, k - 1));
                assert(cur == prev.push(f));
                assert forall|j: int| 0 <= j < cur.len()
                    implies cur[j].i <= pixidx_s(fbw, x0, y0, bw, k - 1) by {
                    if j < prev.len() {
                        assert(cur[j] == prev[j]);
                        if k >= 2 {
                            assert(prev[j].i <= pixidx_s(fbw, x0, y0, bw, k - 2));
                        }
                    }
                }
                assert forall|j1: int, j2: int| 0 <= j1 < j2 < cur.len()
                    implies cur[j1].i < cur[j2].i by {
                    if j2 < prev.len() {
                        assert(cur[j1] == prev[j1] && cur[j2] == prev[j2]);
                    } else {
                        assert(cur[j2] == f);
                        assert(cur[j1] == prev[j1]);
                        assert(prev[j1].i <= pixidx_s(fbw, x0, y0, bw, k - 2));
                    }
                }
            },
            None => {
                assert(cur == prev);
                assert forall|j: int| 0 <= j < cur.len()
                    implies k > 0 && cur[j].i <= pixidx_s(fbw, x0, y0, bw, k - 1) by {
                    if k >= 2 {
                        assert(cur[j].i <= pixidx_s(fbw, x0, y0, bw, k - 2));
                    }
                }
            },
        }
    }
}

/// A triangle's fragment stream touches every pixel at most once: any two
/// distinct fragments of the stream address distinct pixel indices.
pub proof fn lemma_tri_stream_unique(
    v0: RVert, v1: RVert, v2: RVert, u: Uniforms, w: int, h: int,
)
    ensures
        forall|j1: int, j2: int|
            0 <= j1 < j2 < tri_stream_s(v0, v1, v2, u, w, h).len()
                ==> tri_stream_s(v0, v1, v2, u, w, h)[j1].i
                    != tri_stream_s(v0, v1, v2, u, w, h)[j2].i,
{
    let (a, b, c) = oriented_s(v0, v1, v2);
    if area_s(a, b, c) != 0 {
        let xlo = max_s(min_s(min_s(a.px as int, b.px as int), c.px as int), 0);
        let xhi = min_s(max_s(max_s(a.px as int, b.px as int), c.px as int), w - 1);
        let ylo = max_s(min_s(min_s(a.py as int, b.py as int), c.py as int), 0);
        let yhi = min_s(max_s(max_s(a.py as int, b.py as int), c.py as int), h - 1);
        if !(xhi < xlo || yhi < ylo) {
            let bw = xhi - xlo + 1;
            lemma_tri_frags_unique(
                a, b, c, u, w, xlo, ylo, bw, ((yhi - ylo + 1) * bw) as nat);
        }
    }
}

/// The weighted sum of one vertex quantity over the three barycentric
/// weights, in a wide intermediate.
fn wsum(e0: i64, e1: i64, e2: i64, q0: i64, q1: i64, q2: i64) -> (s: i128)
    requires
        -0x2000_0000_0000 <= e0 <= 0x2000_0000_0000,
        -0x2000_0000_0000 <= e1 <= 0x2000_0000_0000,
        -0x2000_0000_0000 <= e2 <= 0x2000_0000_0000,
        fx_ok(q0),
        fx_ok(q1),
        fx_ok(q2),
    ensures
        s as int == (e0 as int) * (q0 as int) + (e1 as int) * (q1 as int)
            + (e2 as int) * (q2 as int),
        -0x6_0000_0000_0000_0000_0000_0000 <= s <= 0x6_0000_0000_0000_0000_0000_0000,
{
    proof {
        assert((e0 as int) * (q0 as int) <= 0x2_0000_0000_0000_0000_0000_0000
            && (e0 as int) * (q0 as int) >= -0x2_0000_0000_0000_0000_0000_0000)
            by (nonlinear_arith)
            requires
                -0x2000_0000_0000 <= e0 as int <= 0x2000_0000_0000,
                -(FX_MAX as int) <= q0 as int <= FX_MAX as int,
                FX_MAX == 0x7fff_ffff_ffff,
        ;
        assert((e1 as int) * (q1 as int) <= 0x2_0000_0000_0000_0000_0000_0000
            && (e1 as int) * (q1 as int) >= -0x2_0000_0000_0000_0000_0000_0000)
            by (nonlinear_arith)
            requires
                -0x2000_0000_0000 <= e1 as int <= 0x2000_0000_0000,
                -(FX_MAX as int) <= q1 as int <= FX_MAX as int,
                FX_MAX == 0x7fff_ffff_ffff,
        ;
        assert((e2 as int) * (q2 as int) <= 0x2_0000_0000_0000_0000_0000_0000
            && (e2 as int) * (q2 as int) >= -0x2_0000_0000_0000_0000_0000_0000)
            by (nonlinear_arith)
            requires
                -0x2000_0000_0000 <= e2 as int <= 0x2000_0000_0000,
                -(FX_MAX as int) <= q2 as int <= FX_MAX as int,
                FX_MAX == 0x7fff_ffff_ffff,
        ;
    }
    (e0 as i128) * (q0 as i128) + (e1 as i128) * (q1 as i128) + (e2 as i128) * (q2 as i128)
}

/// The larger of two coordinates.
fn imax(a: i64, b: i64) -> (r: i64)
    ensures
        r == max_s(a as int, b as int),
{
    if a < b { b } else { a }
}

/// The smaller of two coordinates.
fn imin(a: i64, b: i64) -> (r: i64)
    ensures
        r == min_s(a as int, b as int),
{
    if a < b { a } else { b }
}

/// Rasterize one triangle into the framebuffer: walk its clamped bounding
/// box, and for every covered pixel shade a perspective-correct fragment
/// and submit it to the depth-tested commit. The buffers end exactly as the
/// specification fold says; everything else about the framebuffer is
/// untouched.
/// Unfolding one step of the row-major fragment stream.
proof fn lemma_tri_frags_step(
    a: RVert, b: RVert, c: RVert, u: Uniforms, fbw: int,
    x0: int, y0: int, bw: int, x: int, y: int,
)
    requires
        0 < bw <= 0x40_0000,
        x0 <= x < x0 + bw,
        y0 <= y <= y0 + 0x40_0000,
    ensures
        0 <= (y - y0) * bw + (x - x0) < 0x1_0000_0000_0000,
        ({
            let k = ((y - y0) * bw + (x - x0)) as nat;
            tri_frags_s(a, b, c, u, fbw, x0, y0, bw, (k + 1) as nat)
                == match pix_frag_s(a, b, c, u, fbw, x, y) {
                    Some(f) => tri_frags_s(a, b, c, u, fbw, x0, y0, bw, k).push(f),
                    None => tri_frags_s(a, b, c, u, fbw, x0, y0, bw, k),
                }
        }),
{
    assert((y - y0) * bw + (x - x0) >= 0 && (y - y0) * bw + (x - x0) < 0x1_0000_0000_0000)
        by (nonlinear_arith)
        requires
            0 <= y - y0 <= 0x40_0000,
            0 <= x - x0 < bw,
            0 < bw <= 0x40_0000,
    ;
    let k = ((y - y0) * bw + (x - x0)) as nat;
    vstd::arithmetic::div_mod::lemma_fundamental_div_mod_converse(
        k as int, bw, y - y0, x - x0);
}

/// Process one pixel of the scan: if it is covered and its interpolated
/// reciprocal w is positive, shade the fragment and submit it to the
/// depth-tested commit; otherwise leave the buffers alone.
#[verifier::rlimit(100)]
fn scan_pixel(fb: &mut Framebuffer, u: &Uniforms, a: RVert, b: RVert, c: RVert, area: i64, x: i64, y: i64)
    requires
        old(fb).wf(),
        rvert_ok(a),
        rvert_ok(b),
        rvert_ok(c),
        area == area_s(a, b, c),
        area > 0,
        0 <= x < old(fb).width,
        0 <= y < old(fb).height,
    ensures
        final(fb).wf(),
        final(fb).same_shape(*old(fb)),
        match pix_frag_s(a, b, c, *u, old(fb).width as int, x as int, y as int) {
            Some(f) => final(fb).color@ == commit1_color_s(old(fb).color@, old(fb).depth@, f)
                && final(fb).depth@ == commit1_depth_s(old(fb).color@, old(fb).depth@, f),
            None => final(fb).color@ == old(fb).color@ && final(fb).depth@ == old(fb).depth@,
        },
{
    let e0 = edge(b.px, b.py, c.px, c.py, x, y);
    let e1 = edge(c.px, c.py, a.px, a.py, x, y);
    let e2 = edge(a.px, a.py, b.px, b.py, x, y);
    let in0 = e0 > 0 || (e0 == 0 && ((b.py == c.py && c.px < b.px) || c.py < b.py));
    let in1 = e1 > 0 || (e1 == 0 && ((c.py == a.py && a.px < c.px) || a.py < c.py));
    let in2 = e2 > 0 || (e2 == 0 && ((a.py == b.py && b.px < a.px) || b.py < a.py));
    if in0 && in1 && in2 {
        let den = wsum(e0, e1, e2, a.iw, b.iw, c.iw);
        if den > 0 {
            proof {
                assert(e0 == w0_s(a, b, c, x as int, y as int));
                assert(e1 == w1_s(a, b, c, x as int, y as int));
                assert(e2 == w2_s(a, b, c, x as int, y as int));
                assert(den as int == den_s(a, b, c, x as int, y as int));
            }
            let zsum = wsum(e0, e1, e2, a.z, b.z, c.z);
            let dep = clamp128(idiv128(zsum, area as i128));
            proof {
                assert(dep as int == depth_s(a, b, c, x as int, y as int));
            }
            let fnx = clamp128(idiv128(wsum(e0, e1, e2, a.nx, b.nx, c.nx) * 65536, den));
            let fny = clamp128(idiv128(wsum(e0, e1, e2, a.ny, b.ny, c.ny) * 65536, den));
            let fnz = clamp128(idiv128(wsum(e0, e1, e2, a.nz, b.nz, c.nz) * 65536, den));
            let fwx = clamp128(idiv128(wsum(e0, e1, e2, a.wx, b.wx, c.wx) * 65536, den));
            let fwy = clamp128(idiv128(wsum(e0, e1, e2, a.wy, b.wy, c.wy) * 65536, den));
            let fwz = clamp128(idiv128(wsum(e0, e1, e2, a.wz, b.wz, c.wz) * 65536, den));
            proof {
                assert(fnx as int == attr_s(a, b, c, x as int, y as int,
                    a.nx as int, b.nx as int, c.nx as int));
                assert(fny as int == attr_s(a, b, c, x as int, y as int,
                    a.ny as int, b.ny as int, c.ny as int));
                assert(fnz as int == attr_s(a, b, c, x as int, y as int,
                    a.nz as int, b.nz as int, c.nz as int));
                assert(fwx as int == attr_s(a, b, c, x as int, y as int,
                    a.wx as int, b.wx as int, c.wx as int));
                assert(fwy as int == attr_s(a, b, c, x as int, y as int,
                    a.wy as int, b.wy as int, c.wy as int));
                assert(fwz as int == attr_s(a, b, c, x as int, y as int,
                    a.wz as int, b.wz as int, c.wz as int));
            }
            let fr = Fragment {
                x: x as usize,
                y: y as usize,
                depth: dep,
                normal: V3 { x: fnx, y: fny, z: fnz },
                obj: V3 { x: fwx, y: fwy, z: fwz },
            };
            proof {
                assert(fr == frag_at_s(a, b, c, x as int, y as int));
            }
            let col = shade(&fr, u);
            fb.commit(x as usize, y as usize, dep, col);
        } else {
            proof {
                assert(pix_frag_s(a, b, c, *u, old(fb).width as int, x as int, y as int) is None);
            }
        }
    } else {
        proof {
            assert(!covered_s(a, b, c, x as int, y as int));
            assert(pix_frag_s(a, b, c, *u, old(fb).width as int, x as int, y as int) is None);
        }
    }
}

/// Rasterize one triangle into the framebuffer: walk its clamped bounding
/// box, and for every covered pixel shade a perspective-correct fragment
/// and submit it to the depth-tested commit. The buffers end exactly as the
/// specification fold says; everything else about the framebuffer is
/// untouched.
pub fn raster_tri(fb: &mut Framebuffer, u: &Uniforms, v0: RVert, v1: RVert, v2: RVert)
    requires
        old(fb).wf(),
        rvert_ok(v0),
        rvert_ok(v1),
        rvert_ok(v2),
    ensures
        final(fb).wf(),
        final(fb).same_shape(*old(fb)),
        (final(fb).color@, final(fb).depth@) == raster_tri_s(
            old(fb).color@, old(fb).depth@, v0, v1, v2, *u,
            old(fb).width as int, old(fb).height as int),
{
    let area0 = edge(v0.px, v0.py, v1.px, v1.py, v2.px, v2.py);
    proof {
        assert(commit_seq_s(fb.color@, fb.depth@, Seq::<Frag>::empty())
            == (fb.color@, fb.depth@));
    }
    if area0 == 0 {
        return;
    }
    let (a, b, c) = if area0 < 0 {
        (v0, v2, v1)
    } else {
        (v0, v1, v2)
    };
    proof {
        assert(oriented_s(v0, v1, v2) == (a, b, c));
    }
    let area = edge(a.px, a.py, b.px, b.py, c.px, c.py);
    proof {
        if area0 < 0 {
            assert(area_s(v0, v2, v1) == -area_s(v0, v1, v2)) by (nonlinear_arith);
        }
        assert(area > 0);
    }
    let wi: i64 = fb.width as i64;
    let hi: i64 = fb.height as i64;
    let xlo = imax(imin(imin(a.px, b.px), c.px), 0);
    let xhi = imin(imax(imax(a.px, b.px), c.px), wi - 1);
    let ylo = imax(imin(imin(a.py, b.py), c.py), 0);
    let yhi = imin(imax(imax(a.py, b.py), c.py), hi - 1);
    if xhi < xlo || yhi < ylo {
        return;
    }
    let bw = xhi - xlo + 1;
    let ghost c0 = fb.color@;
    let ghost d0 = fb.depth@;
    let ghost fbw = fb.width as int;
    proof {
        assert(tri_frags_s(a, b, c, *u, fbw, xlo as int, ylo as int, bw as int, 0nat)
            == Seq::<Frag>::empty());
        assert(commit_seq_s(c0, d0, Seq::<Frag>::empty()) == (c0, d0));
    }
    let mut y = ylo;
    while y <= yhi
        invariant
            fb.wf(),
            fb.same_shape(*old(fb)),
            rvert_ok(a),
            rvert_ok(b),
            rvert_ok(c),
            area == area_s(a, b, c),
            area > 0,
            fbw == fb.width as int,
            c0 == old(fb).color@,
            d0 == old(fb).depth@,
            0 <= xlo <= xhi < fb.width,
            0 <= ylo <= y <= yhi + 1,
            yhi < fb.height,
            bw == xhi - xlo + 1,
            (fb.color@, fb.depth@) == commit_seq_s(c0, d0, tri_frags_s(
                a, b, c, *u, fbw, xlo as int, ylo as int, bw as int,
                ((y - ylo) * (bw as int)) as nat)),
        decreases yhi - y + 1,
    {
        let mut x = xlo;
        while x <= xhi
            invariant
                fb.wf(),
                fb.same_shape(*old(fb)),
                rvert_ok(a),
                rvert_ok(b),
                rvert_ok(c),
                area == area_s(a, b, c),
                area > 0,
                fbw == fb.width as int,
                c0 == old(fb).color@,
                d0 == old(fb).depth@,
                0 <= xlo <= x <= xhi + 1,
                xhi < fb.width,
                0 <= ylo <= y <= yhi,
                yhi < fb.height,
                bw == xhi - xlo + 1,
                (fb.color@, fb.depth@) == commit_seq_s(c0, d0, tri_frags_s(
                    a, b, c, *u, fbw, xlo as int, ylo as int, bw as int,
                    ((y - ylo) * (bw as int) + (x - xlo)) as nat)),
            decreases xhi - x + 1,
        {
            let ghost k = ((y - ylo) * (bw as int) + (x - xlo)) as nat;
            let ghost frags_k = tri_frags_s(
                a, b, c, *u, fbw, xlo as int, ylo as int, bw as int, k);
            proof {
                lemma_tri_frags_step(a, b, c, *u, fbw, xlo as int, ylo as int,
                    bw as int, x as int, y as int);
            }
            scan_pixel(fb, u, a, b, c, area, x, y);
            proof {
                if let Some(f) = pix_frag_s(a, b, c, *u, fbw, x as int, y as int) {
                    lemma_commit_seq_push(c0, d0, frags_k, f);
                }
            }
            x = x + 1;
        }
        proof {
            assert((y + 1 - ylo) * (bw as int) == (y - ylo) * (bw as int) + (bw as int))
                by (nonlinear_arith);
        }
        y = y + 1;
    }
    proof {
        assert(((yhi + 1 - ylo) * (bw as int)) as nat
            == ((yhi as int - ylo as int + 1) * (bw as int)) as nat);
    }
}

} // verus!
