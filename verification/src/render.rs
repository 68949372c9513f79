//! The per-frame pipeline: transform each mesh triangle to the screen,
//! rasterize and shade it into the framebuffer, and the decorative
//! primitives (orbit rings, starfield points) that bypass the rasterizer.
//!
//! A triangle is discarded whole when any of its vertices has a
//! non-positive clip-space w, rather than partially clipped: such a vertex
//! is behind or on the camera plane and dividing by its w would produce
//! invalid geometry.

use vstd::prelude::*;
use crate::fixed::fx_ok;
use crate::fixed::fx_add_s;
use crate::fixed::fx_sub_s;
use crate::fixed::cos_s;
use crate::fixed::sin_s;
use crate::fixed::fx_sub;
use crate::fixed::euclid_div_rem;
use crate::linalg::Mat4;
use crate::framebuffer::Frag;
use crate::framebuffer::commit_seq_s;
use crate::framebuffer::lemma_commit_seq_push;
use crate::fixed::fx_mul_s;
use crate::fixed::fx_div_s;
use crate::fixed::fx_mul;
use crate::fixed::fx_div;
use crate::fixed::FX_ONE;
use crate::linalg::V3;
use crate::linalg::V4;
use crate::linalg::v3_ok;
use crate::linalg::mat_vec_s;
use crate::linalg::mat_vec;
use crate::linalg::normalize_s;
use crate::linalg::normalize;
use crate::linalg::to_dir;
use crate::linalg::to_point;
use crate::transform::clip_s;
use crate::transform::to_clip;
use crate::transform::px_of_s;
use crate::transform::px_of;
use crate::framebuffer::Framebuffer;
use crate::raster::RVert;
use crate::raster::rvert_ok;
use crate::raster::raster_tri_s;
use crate::raster::raster_tri;
use crate::shader::Uniforms;
use crate::shader::uniforms_ok;
use crate::fixed::fx_add;
use crate::fixed::fx_sin;
use crate::fixed::fx_cos;

verus! {

/// One mesh vertex: an object-space position and normal.
#[derive(Clone, Copy, PartialEq, Eq, Structural, Debug)]
pub struct Vertex {
    pub pos: V3,
    pub normal: V3,
}

/// Both vectors lie in the fixed-point range.
pub open spec fn vertex_ok(v: Vertex) -> bool {
    v3_ok(v.pos) && v3_ok(v.normal)
}

/// What the transform stage makes of one vertex: `None` exactly when its
/// clip-space w fails the `w > 0` test, otherwise the screen-space raster
/// vertex with perspective-ready attributes.
pub open spec fn transform_vertex_s(u: Uniforms, v: Vertex) -> Option<RVert> {
    let clip = clip_s(u.model, u.view, u.projection, v.pos);
    if clip.w <= 0 {
        None
    } else {
        let iw = fx_div_s(FX_ONE as int, clip.w as int);
        let ndc = V4 {
            x: fx_div_s(clip.x as int, clip.w as int) as i64,
            y: fx_div_s(clip.y as int, clip.w as int) as i64,
            z: fx_div_s(clip.z as int, clip.w as int) as i64,
            w: FX_ONE,
        };
        let sc = mat_vec_s(u.viewport, ndc);
        let n = normalize_s(V3 {
            x: mat_vec_s(u.model, V4 { x: v.normal.x, y: v.normal.y, z: v.normal.z, w: 0i64 }).x,
            y: mat_vec_s(u.model, V4 { x: v.normal.x, y: v.normal.y, z: v.normal.z, w: 0i64 }).y,
            z: mat_vec_s(u.model, V4 { x: v.normal.x, y: v.normal.y, z: v.normal.z, w: 0i64 }).z,
        });
        Some(RVert {
            px: px_of_s(sc.x as int) as i64,
            py: px_of_s(sc.y as int) as i64,
            z: sc.z,
            iw: iw as i64,
            nx: fx_mul_s(n.x as int, iw) as i64,
            ny: fx_mul_s(n.y as int, iw) as i64,
            nz: fx_mul_s(n.z as int, iw) as i64,
            wx: fx_mul_s(v.pos.x as int, iw) as i64,
            wy: fx_mul_s(v.pos.y as int, iw) as i64,
            wz: fx_mul_s(v.pos.z as int, iw) as i64,
        })
    }
}

/// Transform one mesh vertex to a raster vertex, or cull it on the
/// clip-space w test.
pub fn transform_vertex(u: &Uniforms, v: Vertex) -> (r: Option<RVert>)
    requires
        uniforms_ok(*u),
        vertex_ok(v),
    ensures
        r == transform_vertex_s(*u, v),
        r is Some ==> rvert_ok(r->Some_0),
        r is Some <==> clip_s(u.model, u.view, u.projection, v.pos).w > 0,
{
    let clip = to_clip(&u.model, &u.view, &u.projection, v.pos);
    if clip.w <= 0 {
        return None;
    }
    let iw = fx_div(FX_ONE, clip.w);
    let ndc = V4 {
        x: fx_div(clip.x, clip.w),
        y: fx_div(clip.y, clip.w),
        z: fx_div(clip.z, clip.w),
        w: FX_ONE,
    };
    let sc = mat_vec(&u.viewport, ndc);
    let nd = mat_vec(&u.model, to_dir(v.normal));
    let n = normalize(V3 { x: nd.x, y: nd.y, z: nd.z });
    Some(RVert {
        px: px_of(sc.x),
        py: px_of(sc.y),
        z: sc.z,
        iw,
        nx: fx_mul(n.x, iw),
        ny: fx_mul(n.y, iw),
        nz: fx_mul(n.z, iw),
        wx: fx_mul(v.pos.x, iw),
        wy: fx_mul(v.pos.y, iw),
        wz: fx_mul(v.pos.z, iw),
    })
}

/// What drawing one triangle leaves in the buffers: nothing when any
/// vertex fails the clip test, the rasterizer's fold otherwise.
pub open spec fn draw_tri_s(
    cbuf: Seq<u32>, dbuf: Seq<i64>, u: Uniforms, w: int, h: int,
    v0: Vertex, v1: Vertex, v2: Vertex,
) -> (Seq<u32>, Seq<i64>) {
    match (transform_vertex_s(u, v0), transform_vertex_s(u, v1), transform_vertex_s(u, v2)) {
        (Some(a), Some(b), Some(c)) => raster_tri_s(cbuf, dbuf, a, b, c, u, w, h),
        _ => (cbuf, dbuf),
    }
}

/// Transform and rasterize one triangle. A triangle with any vertex at or
/// behind the camera plane (clip w not strictly positive) emits no
/// fragments and leaves the framebuffer unchanged.
pub fn draw_triangle(fb: &mut Framebuffer, u: &Uniforms, v0: Vertex, v1: Vertex, v2: Vertex)
    requires
        old(fb).wf(),
        uniforms_ok(*u),
        vertex_ok(v0),
        vertex_ok(v1),
        vertex_ok(v2),
    ensures
        final(fb).wf(),
        final(fb).same_shape(*old(fb)),
        (final(fb).color@, final(fb).depth@) == draw_tri_s(
            old(fb).color@, old(fb).depth@, *u,
            old(fb).width as int, old(fb).height as int, v0, v1, v2),
        (clip_s(u.model, u.view, u.projection, v0.pos).w <= 0
            || clip_s(u.model, u.view, u.projection, v1.pos).w <= 0
            || clip_s(u.model, u.view, u.projection, v2.pos).w <= 0)
            ==> *final(fb) == *old(fb),
{
    let r0 = transform_vertex(u, v0);
    let r1 = transform_vertex(u, v1);
    let r2 = transform_vertex(u, v2);
    match (r0, r1, r2) {
        (Some(a), Some(b), Some(c)) => {
            raster_tri(fb, u, a, b, c);
        },
        _ => {},
    }
}

/// The fragment stream one mesh triangle submits after its transform:
/// empty when any vertex fails the clip test.
pub open spec fn tri_stream_of_s(
    u: Uniforms, w: int, h: int, v0: Vertex, v1: Vertex, v2: Vertex,
) -> Seq<crate::framebuffer::Frag> {
    match (transform_vertex_s(u, v0), transform_vertex_s(u, v1), transform_vertex_s(u, v2)) {
        (Some(a), Some(b), Some(c)) => crate::raster::tri_stream_s(a, b, c, u, w, h),
        _ => Seq::empty(),
    }
}

/// Depth-test idempotence: drawing an identical triangle twice, with
/// identical transforms and uniforms, leaves the framebuffer exactly as
/// drawing it once does — no second-pass depth is strictly nearer than
/// what the first pass stored, so no pixel is overwritten.
pub proof fn lemma_draw_tri_idempotent(
    cbuf: Seq<u32>, dbuf: Seq<i64>, u: Uniforms, w: int, h: int,
    v0: Vertex, v1: Vertex, v2: Vertex,
)
    ensures
        ({
            let once = draw_tri_s(cbuf, dbuf, u, w, h, v0, v1, v2);
            draw_tri_s(once.0, once.1, u, w, h, v0, v1, v2) == once
        }),
{
    match (transform_vertex_s(u, v0), transform_vertex_s(u, v1), transform_vertex_s(u, v2)) {
        (Some(a), Some(b), Some(c)) => {
            crate::framebuffer::lemma_depth_test_idempotent(
                cbuf, dbuf, crate::raster::tri_stream_s(a, b, c, u, w, h));
        },
        _ => {},
    }
}

/// Order independence: two triangles that each cover every pixel at most
/// once (as any single bounding-box scan does) and whose interpolated
/// depths differ at every pixel they both cover draw to the same
/// framebuffer in either submission order.
pub proof fn lemma_draw_tri_order_independent(
    cbuf: Seq<u32>, dbuf: Seq<i64>, ua: Uniforms, ub: Uniforms, w: int, h: int,
    a0: Vertex, a1: Vertex, a2: Vertex,
    b0: Vertex, b1: Vertex, b2: Vertex,
)
    requires
        cbuf.len() == dbuf.len(),
        forall|ka: int, kb: int|
            0 <= ka < tri_stream_of_s(ua, w, h, a0, a1, a2).len()
                && 0 <= kb < tri_stream_of_s(ub, w, h, b0, b1, b2).len()
                && tri_stream_of_s(ua, w, h, a0, a1, a2)[ka].i
                    == tri_stream_of_s(ub, w, h, b0, b1, b2)[kb].i
                ==> tri_stream_of_s(ua, w, h, a0, a1, a2)[ka].depth
                    != tri_stream_of_s(ub, w, h, b0, b1, b2)[kb].depth,
    ensures
        ({
            let fa = draw_tri_s(cbuf, dbuf, ua, w, h, a0, a1, a2);
            let fb = draw_tri_s(cbuf, dbuf, ub, w, h, b0, b1, b2);
            draw_tri_s(fa.0, fa.1, ub, w, h, b0, b1, b2)
                == draw_tri_s(fb.0, fb.1, ua, w, h, a0, a1, a2)
        }),
{
    let sa = tri_stream_of_s(ua, w, h, a0, a1, a2);
    let sb = tri_stream_of_s(ub, w, h, b0, b1, b2);
    match (transform_vertex_s(ua, a0), transform_vertex_s(ua, a1), transform_vertex_s(ua, a2)) {
        (Some(ra), Some(rb), Some(rc)) => {
            crate::raster::lemma_tri_stream_unique(ra, rb, rc, ua, w, h);
        },
        _ => {},
    }
    match (transform_vertex_s(ub, b0), transform_vertex_s(ub, b1), transform_vertex_s(ub, b2)) {
        (Some(ra), Some(rb), Some(rc)) => {
            crate::raster::lemma_tri_stream_unique(ra, rb, rc, ub, w, h);
        },
        _ => {},
    }
    crate::framebuffer::lemma_commit_seq_shape(cbuf, dbuf, sa);
    crate::framebuffer::lemma_commit_seq_shape(cbuf, dbuf, sb);
    crate::framebuffer::lemma_depth_test_order_independent(cbuf, dbuf, sa, sb);
    assert(crate::framebuffer::commit_seq_s(cbuf, dbuf, Seq::empty()) == (cbuf, dbuf));
}

/// What rendering the first `k` triangles of a vertex array leaves in the
/// buffers: vertices are taken in consecutive triples.
pub open spec fn render_s(
    cbuf: Seq<u32>, dbuf: Seq<i64>, u: Uniforms, w: int, h: int,
    verts: Seq<Vertex>, k: nat,
) -> (Seq<u32>, Seq<i64>)
    decreases k,
{
    if k == 0 || verts.len() < 3 * k {
        (cbuf, dbuf)
    } else {
        let prev = render_s(cbuf, dbuf, u, w, h, verts, (k - 1) as nat);
        draw_tri_s(
            prev.0, prev.1, u, w, h,
            verts[3 * (k - 1)], verts[3 * (k - 1) + 1], verts[3 * (k - 1) + 2])
    }
}

/// Render a draw call: walk the vertex array in triples and draw each
/// triangle through the transform, rasterize, shade and depth-test stages.
#[verifier::rlimit(100)]
pub fn render(fb: &mut Framebuffer, u: &Uniforms, verts: &Vec<Vertex>)
    requires
        old(fb).wf(),
        uniforms_ok(*u),
        forall|i: int| 0 <= i < verts@.len() ==> vertex_ok(#[trigger] verts@[i]),
    ensures
        final(fb).wf(),
        final(fb).same_shape(*old(fb)),
        (final(fb).color@, final(fb).depth@) == render_s(
            old(fb).color@, old(fb).depth@, *u,
            old(fb).width as int, old(fb).height as int, verts@, verts@.len() / 3),
{
    let vlen = verts.len();
    let n = vlen / 3;
    let mut k: usize = 0;
    proof {
        vstd::arithmetic::div_mod::lemma_fundamental_div_mod(vlen as int, 3);
    }
    while k < n
        invariant
            fb.wf(),
            fb.same_shape(*old(fb)),
            uniforms_ok(*u),
            forall|i: int| 0 <= i < verts@.len() ==> vertex_ok(#[trigger] verts@[i]),
            vlen == verts@.len(),
            n == vlen as int / 3,
            3 * n <= vlen,
            k <= n,
            (fb.color@, fb.depth@) == render_s(
                old(fb).color@, old(fb).depth@, *u,
                old(fb).width as int, old(fb).height as int, verts@, k as nat),
        decreases n - k,
    {
        let v0 = verts[3 * k];
        let v1 = verts[3 * k + 1];
        let v2 = verts[3 * k + 2];
        draw_triangle(fb, u, v0, v1, v2);
        k = k + 1;
    }
}

/// The fixed angular step of the orbit outline: a hundredth of a turn.
pub const ORBIT_STEP: i64 = 4118;

/// Segment endpoint `k` of the orbit outline: a point on the circle of
/// `radius` about `center` in the plane `y == center.y`.
pub open spec fn orbit_point_s(center: V3, radius: i64, k: int) -> V3 {
    V3 {
        x: fx_add_s(center.x as int,
            fx_mul_s(radius as int, cos_s(k * (ORBIT_STEP as int)))) as i64,
        y: center.y,
        z: fx_add_s(center.z as int,
            fx_mul_s(radius as int, sin_s(k * (ORBIT_STEP as int)))) as i64,
    }
}

/// An orbit point taken to clip space by the view and projection alone:
/// the rings live in the scene's world frame, so no model matrix applies.
pub open spec fn orbit_clip_s(view: Mat4, proj: Mat4, p: V3) -> V4 {
    mat_vec_s(proj, mat_vec_s(view, V4 { x: p.x, y: p.y, z: p.z, w: FX_ONE }))
}

/// The overlay's NDC-to-pixel mapping: `(ndc + 1) * extent / 2` along x,
/// `(1 - ndc) * extent / 2` along y, truncated to a whole pixel and
/// clipped below at zero.
pub open spec fn orbit_px_s(num: int, clipw: int, extent: int, flip: bool) -> int {
    let ndc = fx_div_s(num, clipw);
    let s = fx_mul_s(
        if flip { fx_sub_s(FX_ONE as int, ndc) } else { fx_add_s(ndc, FX_ONE as int) },
        extent * 32768,
    );
    if s <= 0 {
        0
    } else {
        s / (FX_ONE as int)
    }
}

/// Whether orbit segment `k` is drawn: both endpoints pass the clip
/// `w > 0` test and both mapped screen points land inside the framebuffer.
pub open spec fn orbit_drawn_s(
    w: int, h: int, view: Mat4, proj: Mat4, center: V3, radius: i64, k: int,
) -> bool {
    let c1 = orbit_clip_s(view, proj, orbit_point_s(center, radius, k));
    let c2 = orbit_clip_s(view, proj, orbit_point_s(center, radius, k + 1));
    &&& c1.w > 0
    &&& c2.w > 0
    &&& orbit_px_s(c1.x as int, c1.w as int, w, false) < w
    &&& orbit_px_s(c1.y as int, c1.w as int, h, true) < h
    &&& orbit_px_s(c2.x as int, c2.w as int, w, false) < w
    &&& orbit_px_s(c2.y as int, c2.w as int, h, true) < h
}

/// What orbit segment `k` leaves in the color buffer: a yellow line
/// between the two projected endpoints when the segment is drawn, nothing
/// otherwise.
pub open spec fn orbit_seg_s(
    c: Seq<u32>, w: int, h: int, view: Mat4, proj: Mat4, center: V3, radius: i64, k: int,
) -> Seq<u32> {
    if orbit_drawn_s(w, h, view, proj, center, radius, k) {
        let c1 = orbit_clip_s(view, proj, orbit_point_s(center, radius, k));
        let c2 = orbit_clip_s(view, proj, orbit_point_s(center, radius, k + 1));
        crate::framebuffer::line_effect_s(
            c, w, h, 0xFFFF00u32,
            orbit_px_s(c1.x as int, c1.w as int, w, false),
            orbit_px_s(c1.y as int, c1.w as int, h, true),
            orbit_px_s(c2.x as int, c2.w as int, w, false),
            orbit_px_s(c2.y as int, c2.w as int, h, true),
        )
    } else {
        c
    }
}

/// An orbit segment with an endpoint at or behind the camera plane (clip
/// w not strictly positive) draws nothing and leaves the buffer unchanged.
pub proof fn lemma_orbit_segment_clipped(
    c: Seq<u32>, w: int, h: int, view: Mat4, proj: Mat4, center: V3, radius: i64, k: int,
)
    requires
        orbit_clip_s(view, proj, orbit_point_s(center, radius, k)).w <= 0
            || orbit_clip_s(view, proj, orbit_point_s(center, radius, k + 1)).w <= 0,
    ensures
        orbit_seg_s(c, w, h, view, proj, center, radius, k) == c,
{
}

/// The color buffer after the first `k` orbit segments.
pub open spec fn orbit_fold_s(
    c: Seq<u32>, w: int, h: int, view: Mat4, proj: Mat4, center: V3, radius: i64, k: nat,
) -> Seq<u32>
    decreases k,
{
    if k == 0 {
        c
    } else {
        orbit_seg_s(
            orbit_fold_s(c, w, h, view, proj, center, radius, (k - 1) as nat),
            w, h, view, proj, center, radius, k as int - 1)
    }
}

/// Map one projected orbit endpoint onto a pixel axis.
fn orbit_px(num: i64, clipw: i64, extent: i64, flip: bool) -> (r: i64)
    requires
        fx_ok(num),
        fx_ok(clipw),
        0 <= extent <= 4096,
    ensures
        r == orbit_px_s(num as int, clipw as int, extent as int, flip),
        0 <= r,
{
    let ndc = fx_div(num, clipw);
    let t = if flip {
        fx_sub(FX_ONE, ndc)
    } else {
        fx_add(ndc, FX_ONE)
    };
    let s = fx_mul(t, extent * 32768);
    if s <= 0 {
        0
    } else {
        let (q, _r) = euclid_div_rem(s, FX_ONE);
        q
    }
}

/// Draw the circular orbit outline of radius `radius` about `center` in
/// the plane `y == center.y`, projected through the view and projection
/// matrices alone, as 100 line segments in yellow. A segment is drawn
/// exactly when both endpoints pass the clip `w > 0` test and both mapped
/// screen points are in bounds; the color buffer ends exactly as the
/// segment fold says, the depth buffer is untouched, and the draw color
/// register is yellow exactly when some segment was drawn.
#[verifier::rlimit(100)]
pub fn draw_orbit(fb: &mut Framebuffer, center: V3, radius: i64, u: &Uniforms)
    requires
        old(fb).wf(),
        v3_ok(center),
        fx_ok(radius),
        uniforms_ok(*u),
    ensures
        final(fb).wf(),
        final(fb).width == old(fb).width,
        final(fb).height == old(fb).height,
        final(fb).background == old(fb).background,
        final(fb).depth@ == old(fb).depth@,
        final(fb).color@ == orbit_fold_s(
            old(fb).color@, old(fb).width as int, old(fb).height as int,
            u.view, u.projection, center, radius, 100),
        final(fb).current_color == (
            if exists|k: int| 0 <= k < 100 && orbit_drawn_s(
                old(fb).width as int, old(fb).height as int,
                u.view, u.projection, center, radius, k) {
                0xFFFF00u32
            } else {
                old(fb).current_color
            }
        ),
{
    let wi: i64 = fb.width as i64;
    let hi: i64 = fb.height as i64;
    let mut i: i64 = 0;
    while i < 100
        invariant
            fb.wf(),
            fb.width == old(fb).width,
            fb.height == old(fb).height,
            fb.background == old(fb).background,
            fb.depth@ == old(fb).depth@,
            v3_ok(center),
            fx_ok(radius),
            uniforms_ok(*u),
            wi == fb.width as i64,
            hi == fb.height as i64,
            0 <= i <= 100,
            fb.color@ == orbit_fold_s(
                old(fb).color@, old(fb).width as int, old(fb).height as int,
                u.view, u.projection, center, radius, i as nat),
            fb.current_color == (
                if exists|k: int| 0 <= k < i && orbit_drawn_s(
                    old(fb).width as int, old(fb).height as int,
                    u.view, u.projection, center, radius, k) {
                    0xFFFF00u32
                } else {
                    old(fb).current_color
                }
            ),
        decreases 100 - i,
    {
        let a1: i64 = i * ORBIT_STEP;
        let a2: i64 = (i + 1) * ORBIT_STEP;
        let p1 = V3 {
            x: fx_add(center.x, fx_mul(radius, fx_cos(a1))),
            y: center.y,
            z: fx_add(center.z, fx_mul(radius, fx_sin(a1))),
        };
        let p2 = V3 {
            x: fx_add(center.x, fx_mul(radius, fx_cos(a2))),
            y: center.y,
            z: fx_add(center.z, fx_mul(radius, fx_sin(a2))),
        };
        let c1 = mat_vec(&u.projection, mat_vec(&u.view, to_point(p1)));
        let c2 = mat_vec(&u.projection, mat_vec(&u.view, to_point(p2)));
        proof {
            assert(p1 == orbit_point_s(center, radius, i as int));
            assert(p2 == orbit_point_s(center, radius, i as int + 1));
            assert(c1 == orbit_clip_s(u.view, u.projection, p1));
            assert(c2 == orbit_clip_s(u.view, u.projection, p2));
        }
        if c1.w > 0 && c2.w > 0 {
            let x1 = orbit_px(c1.x, c1.w, wi, false);
            let y1 = orbit_px(c1.y, c1.w, hi, true);
            let x2 = orbit_px(c2.x, c2.w, wi, false);
            let y2 = orbit_px(c2.y, c2.w, hi, true);
            if x1 < wi && y1 < hi && x2 < wi && y2 < hi {
                fb.set_current_color(0xFFFF00);
                fb.line(x1 as usize, y1 as usize, x2 as usize, y2 as usize);
                proof {
                    assert(orbit_drawn_s(
                        old(fb).width as int, old(fb).height as int,
                        u.view, u.projection, center, radius, i as int));
                }
            } else {
                proof {
                    assert(!orbit_drawn_s(
                        old(fb).width as int, old(fb).height as int,
                        u.view, u.projection, center, radius, i as int));
                }
            }
        } else {
            proof {
                assert(!orbit_drawn_s(
                    old(fb).width as int, old(fb).height as int,
                    u.view, u.projection, center, radius, i as int));
            }
        }
        i = i + 1;
    }
}

/// Depth at which starfield points are committed: far behind every body,
/// but nearer than the cleared depth, so bodies always occlude stars.
pub const STAR_DEPTH: i64 = 6553600;

/// The fragment one star position submits: a full-intensity white point at
/// the star depth, dropped when the position is outside the framebuffer.
pub open spec fn star_frag_s(w: int, h: int, p: (usize, usize)) -> Option<Frag> {
    if (p.0 as int) < w && (p.1 as int) < h {
        Some(Frag {
            i: (p.1 as int) * w + (p.0 as int),
            depth: STAR_DEPTH,
            color: 0xFF_FFFFu32,
        })
    } else {
        None
    }
}

/// The fragment stream of the first `k` star positions.
pub open spec fn star_frags_s(ps: Seq<(usize, usize)>, w: int, h: int, k: nat) -> Seq<Frag>
    decreases k,
{
    if k == 0 {
        Seq::empty()
    } else {
        let prev = star_frags_s(ps, w, h, (k - 1) as nat);
        match star_frag_s(w, h, ps[k as int - 1]) {
            Some(f) => prev.push(f),
            None => prev,
        }
    }
}

/// Whether the starfield should be regenerated this frame: on every
/// `interval`-th frame, or whenever no positions exist yet.
pub fn stars_need_refresh(time: u32, interval: u32, count: usize) -> (r: bool)
    requires
        interval > 0,
    ensures
        r == ((time as int) % (interval as int) == 0 || count == 0),
{
    time % interval == 0 || count == 0
}

/// Draw the starfield: the draw color is set to white and then one
/// full-intensity point per position goes through the depth-tested commit,
/// in order, so bodies drawn afterward occlude the stars. The buffers end
/// exactly as the commit fold of the stars' fragment stream says.
pub fn draw_stars(fb: &mut Framebuffer, positions: &Vec<(usize, usize)>)
    requires
        old(fb).wf(),
    ensures
        final(fb).wf(),
        final(fb).width == old(fb).width,
        final(fb).height == old(fb).height,
        final(fb).background == old(fb).background,
        final(fb).current_color == 0xFF_FFFF,
        (final(fb).color@, final(fb).depth@) == commit_seq_s(
            old(fb).color@, old(fb).depth@,
            star_frags_s(positions@, old(fb).width as int, old(fb).height as int,
                positions@.len())),
{
    fb.set_current_color(0xFF_FFFF);
    let ghost c0 = fb.color@;
    let ghost d0 = fb.depth@;
    let ghost w = fb.width as int;
    let ghost h = fb.height as int;
    proof {
        assert(commit_seq_s(c0, d0, Seq::<Frag>::empty()) == (c0, d0));
    }
    let mut k: usize = 0;
    while k < positions.len()
        invariant
            fb.wf(),
            fb.width == old(fb).width,
            fb.height == old(fb).height,
            fb.background == old(fb).background,
            fb.current_color == 0xFF_FFFF,
            c0 == old(fb).color@,
            d0 == old(fb).depth@,
            w == fb.width as int,
            h == fb.height as int,
            k <= positions@.len(),
            (fb.color@, fb.depth@) == commit_seq_s(
                c0, d0, star_frags_s(positions@, w, h, k as nat)),
        decreases positions@.len() - k,
    {
        let (x, y) = positions[k];
        let ghost frags_k = star_frags_s(positions@, w, h, k as nat);
        fb.point(x, y, FX_ONE, STAR_DEPTH);
        proof {
            crate::color::lemma_scale_one(0xFF_FFFF);
            if x < fb.width && y < fb.height {
                let f = Frag { i: (y as int) * w + (x as int), depth: STAR_DEPTH,
                    color: 0xFF_FFFFu32 };
                assert(star_frag_s(w, h, positions@[k as int]) == Some(f));
                lemma_commit_seq_push(c0, d0, frags_k, f);
            } else {
                assert(star_frag_s(w, h, positions@[k as int]) is None);
            }
            assert(star_frags_s(positions@, w, h, (k + 1) as nat)
                == match star_frag_s(w, h, positions@[k as int]) {
                    Some(f) => frags_k.push(f),
                    None => frags_k,
                });
        }
        k = k + 1;
    }
}

} // verus!
