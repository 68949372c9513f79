//! The framebuffer: a color buffer and a depth buffer of `width * height`
//! entries each, a current draw color, and a background color. It arbitrates
//! every pixel write: `commit` performs the nearest-wins depth test, and all
//! addressing is bounds-checked, so out-of-range writes are silently dropped.

use vstd::prelude::*;

verus! {

/// The depth every pixel is reset to by `clear`: farther than any committed
/// fragment, playing the role of positive infinity.
pub const DEPTH_FAR: i64 = 0x7fff_ffff_ffff_ffff;

/// Largest supported framebuffer side length.
pub const MAX_SIDE: usize = 4096;

/// Largest color value: colors are packed `0x00RRGGBB` words.
pub const COLOR_MAX: u32 = 0xFF_FFFF;

/// One committed fragment, at the spec level: a flat pixel index, a depth,
/// and a packed color.
pub ghost struct Frag {
    pub i: int,
    pub depth: i64,
    pub color: u32,
}

/// One depth-tested write: the color and depth at index `i` change to the
/// fragment's exactly when the index is in range and the new depth is
/// strictly nearer than the stored one.
pub open spec fn commit1_color_s(c: Seq<u32>, d: Seq<i64>, f: Frag) -> Seq<u32> {
    if 0 <= f.i < d.len() && f.i < c.len() && f.depth < d[f.i] {
        c.update(f.i, f.color)
    } else {
        c
    }
}

/// The depth half of one depth-tested write.
pub open spec fn commit1_depth_s(c: Seq<u32>, d: Seq<i64>, f: Frag) -> Seq<i64> {
    if 0 <= f.i < d.len() && f.i < c.len() && f.depth < d[f.i] {
        d.update(f.i, f.depth)
    } else {
        d
    }
}

/// Row-major pixel indexing stays inside the buffer.
pub proof fn lemma_idx_bound(x: int, y: int, w: int, h: int)
    requires
        0 <= x < w,
        0 <= y < h,
        w <= 4096,
        h <= 4096,
    ensures
        y * w + x < w * h,
        w * h <= 16777216,
    {
    assert(y * w + x < w * h && w * h <= 16777216) by (nonlinear_arith)
        requires
            0 <= x < w,
            0 <= y < h,
            w <= 4096,
            h <= 4096,
    ;
}

/// One bounds-checked color write at a pixel.
pub open spec fn plot_s(c: Seq<u32>, w: int, h: int, x: int, y: int, col: u32) -> Seq<u32> {
    if 0 <= x < w && 0 <= y < h && 0 <= y * w + x < c.len() {
        c.update(y * w + x, col)
    } else {
        c
    }
}

/// The Bresenham walk state after `k` steps from `(xa, ya)` toward
/// `(xb, yb)`: the current pixel, the error term, and whether the endpoint
/// has been plotted (after which nothing more happens).
pub open spec fn line_state_s(xa: int, ya: int, xb: int, yb: int, k: nat) -> (int, int, int, bool)
    decreases k,
{
    let dx = crate::fixed::abs_s(xb - xa);
    let dy = crate::fixed::abs_s(yb - ya);
    let sx: int = if xa < xb { 1 } else { -1 };
    let sy: int = if ya < yb { 1 } else { -1 };
    if k == 0 {
        (xa, ya, dx - dy, false)
    } else {
        let s = line_state_s(xa, ya, xb, yb, (k - 1) as nat);
        if s.3 {
            s
        } else if s.0 == xb && s.1 == yb {
            (s.0, s.1, s.2, true)
        } else {
            let e2 = 2 * s.2;
            let stepx = e2 >= -dy && s.0 != xb;
            let stepy = e2 <= dx && s.1 != yb;
            (
                if stepx { s.0 + sx } else { s.0 },
                if stepy { s.1 + sy } else { s.1 },
                s.2 - (if stepx { dy } else { 0 }) + (if stepy { dx } else { 0 }),
                false,
            )
        }
    }
}

/// The color buffer after the first `k` steps of the line walk: each
/// not-yet-finished step writes its pixel, bounds-checked.
pub open spec fn line_fold_s(
    c: Seq<u32>, w: int, h: int, col: u32,
    xa: int, ya: int, xb: int, yb: int, k: nat,
) -> Seq<u32>
    decreases k,
{
    if k == 0 {
        c
    } else {
        let prev = line_fold_s(c, w, h, col, xa, ya, xb, yb, (k - 1) as nat);
        let s = line_state_s(xa, ya, xb, yb, (k - 1) as nat);
        if s.3 {
            prev
        } else {
            plot_s(prev, w, h, s.0, s.1, col)
        }
    }
}

/// Everything one line draw does to the color buffer: the whole walk, of
/// one step more than the endpoints' Manhattan distance.
pub open spec fn line_effect_s(
    c: Seq<u32>, w: int, h: int, col: u32, xa: int, ya: int, xb: int, yb: int,
) -> Seq<u32> {
    line_fold_s(c, w, h, col, xa, ya, xb, yb,
        (crate::fixed::abs_s(xb - xa) + crate::fixed::abs_s(yb - ya) + 1) as nat)
}

pub struct Framebuffer {
    pub width: usize,
    pub height: usize,
    pub color: Vec<u32>,
    pub depth: Vec<i64>,
    pub current_color: u32,
    pub background: u32,
}

impl Framebuffer {
    /// Well-formedness: both buffers cover exactly `width * height` pixels,
    /// the sides are bounded, and every stored color is a packed RGB word.
    pub open spec fn wf(self) -> bool {
        &&& self.color@.len() == self.width * self.height
        &&& self.depth@.len() == self.width * self.height
        &&& self.width <= MAX_SIDE
        &&& self.height <= MAX_SIDE
        &&& self.current_color <= COLOR_MAX
        &&& self.background <= COLOR_MAX
        &&& forall|i: int| 0 <= i < self.color@.len() ==> self.color@[i] <= COLOR_MAX
    }

    /// The flat row-major index of a pixel.
    pub open spec fn idx(self, x: int, y: int) -> int {
        y * self.width + x
    }

    /// The dimensions, draw color and background are those of `other`:
    /// everything but the two buffers.
    pub open spec fn same_shape(self, other: Framebuffer) -> bool {
        &&& self.width == other.width
        &&& self.height == other.height
        &&& self.current_color == other.current_color
        &&& self.background == other.background
    }

    /// A fresh framebuffer: black background, white draw color, every pixel
    /// at the background color and the far depth.
    pub fn new(width: usize, height: usize) -> (fb: Framebuffer)
        requires
            width <= MAX_SIDE,
            height <= MAX_SIDE,
        ensures
            fb.wf(),
            fb.width == width,
            fb.height == height,
            fb.background == 0,
            fb.current_color == COLOR_MAX,
            forall|i: int| 0 <= i < fb.color@.len() ==> fb.color@[i] == 0,
            forall|i: int| 0 <= i < fb.depth@.len() ==> fb.depth@[i] == DEPTH_FAR,
    {
        proof {
            assert((width as int) * (height as int) <= 16777216) by (nonlinear_arith)
                requires
                    width <= 4096,
                    height <= 4096,
                    0 <= width,
                    0 <= height,
            ;
        }
        let n = width * height;
        Framebuffer {
            width,
            height,
            color: filled_u32(n, 0),
            depth: filled_i64(n, DEPTH_FAR),
            current_color: COLOR_MAX,
            background: 0,
        }
    }

    /// Set the background color used by `clear`.
    pub fn set_background_color(&mut self, color: u32)
        requires
            old(self).wf(),
            color <= COLOR_MAX,
        ensures
            final(self).wf(),
            *final(self) == (Framebuffer { background: color, ..*old(self) }),
    {
        self.background = color;
    }

    /// Set the color used by `point` and `line`.
    pub fn set_current_color(&mut self, color: u32)
        requires
            old(self).wf(),
            color <= COLOR_MAX,
        ensures
            final(self).wf(),
            *final(self) == (Framebuffer { current_color: color, ..*old(self) }),
    {
        self.current_color = color;
    }

    /// Reset every pixel to the background color and the far depth: the
    /// frame's single atomic reset step.
    pub fn clear(&mut self)
        requires
            old(self).wf(),
        ensures
            final(self).wf(),
            final(self).same_shape(*old(self)),
            final(self).color@ == Seq::new(old(self).color@.len(), |i: int| old(self).background),
            final(self).depth@ == Seq::new(old(self).depth@.len(), |i: int| DEPTH_FAR),
    {
        proof {
            assert((self.width as int) * (self.height as int) <= 16777216) by (nonlinear_arith)
                requires
                    self.width <= 4096,
                    self.height <= 4096,
                    0 <= self.width,
                    0 <= self.height,
            ;
        }
        let n = self.width * self.height;
        self.color = filled_u32(n, self.background);
        self.depth = filled_i64(n, DEPTH_FAR);
        proof {
            assert(self.color@ =~= Seq::new(old(self).color@.len(), |i: int| old(self).background));
            assert(self.depth@ =~= Seq::new(old(self).depth@.len(), |i: int| DEPTH_FAR));
        }
    }

    /// Commit one fragment: write `color` and `depth` at `(x, y)` exactly
    /// when the pixel is in bounds and `depth` is strictly nearer than the
    /// stored depth (nearest-wins z-test); otherwise change nothing.
    pub fn commit(&mut self, x: usize, y: usize, depth: i64, color: u32)
        requires
            old(self).wf(),
            color <= COLOR_MAX,
        ensures
            final(self).wf(),
            final(self).same_shape(*old(self)),
            x < old(self).width && y < old(self).height ==> {
                let f = Frag { i: old(self).idx(x as int, y as int), depth, color };
                &&& final(self).color@ == commit1_color_s(old(self).color@, old(self).depth@, f)
                &&& final(self).depth@ == commit1_depth_s(old(self).color@, old(self).depth@, f)
            },
            !(x < old(self).width && y < old(self).height) ==> *final(self) == *old(self),
    {
        if x < self.width && y < self.height {
            proof {
                lemma_idx_bound(x as int, y as int, self.width as int, self.height as int);
            }
            let i = y * self.width + x;
            if depth < self.depth[i] {
                self.color[i] = color;
                self.depth[i] = depth;
            }
        }
    }

    /// Read the packed color at a pixel; the background color out of bounds.
    pub fn get_color(&self, x: usize, y: usize) -> (c: u32)
        requires
            self.wf(),
        ensures
            x < self.width && y < self.height ==> c == self.color@[self.idx(x as int, y as int)],
            !(x < self.width && y < self.height) ==> c == self.background,
            c <= COLOR_MAX,
    {
        if x < self.width && y < self.height {
            proof {
                lemma_idx_bound(x as int, y as int, self.width as int, self.height as int);
            }
            self.color[y * self.width + x]
        } else {
            self.background
        }
    }

    /// Read the stored depth at a pixel; the far depth out of bounds.
    pub fn get_depth(&self, x: usize, y: usize) -> (d: i64)
        requires
            self.wf(),
        ensures
            x < self.width && y < self.height ==> d == self.depth@[self.idx(x as int, y as int)],
            !(x < self.width && y < self.height) ==> d == DEPTH_FAR,
    {
        if x < self.width && y < self.height {
            proof {
                lemma_idx_bound(x as int, y as int, self.width as int, self.height as int);
            }
            self.depth[y * self.width + x]
        } else {
            DEPTH_FAR
        }
    }

    /// Write the current draw color at a pixel, bounds-checked, without
    /// touching the depth buffer (the color-only step of the line path).
    pub fn plot(&mut self, x: usize, y: usize)
        requires
            old(self).wf(),
        ensures
            final(self).wf(),
            final(self).same_shape(*old(self)),
            final(self).depth@ == old(self).depth@,
            x < old(self).width && y < old(self).height ==> final(self).color@
                == old(self).color@.update(
                    old(self).idx(x as int, y as int), old(self).current_color),
            !(x < old(self).width && y < old(self).height) ==> *final(self) == *old(self),
    {
        if x < self.width && y < self.height {
            proof {
                lemma_idx_bound(x as int, y as int, self.width as int, self.height as int);
            }
            let i = y * self.width + x;
            let col = self.current_color;
            self.color[i] = col;
        }
    }

    /// Draw a straight line between two pixels in the current draw color:
    /// a bounds-checked, color-only path that bypasses the rasterizer and
    /// never touches the depth buffer. The color buffer ends exactly as
    /// the specification walk of the line's pixels says.
    #[verifier::rlimit(100)]
    pub fn line(&mut self, x0: usize, y0: usize, x1: usize, y1: usize)
        requires
            old(self).wf(),
            x0 <= MAX_SIDE,
            y0 <= MAX_SIDE,
            x1 <= MAX_SIDE,
            y1 <= MAX_SIDE,
        ensures
            final(self).wf(),
            final(self).same_shape(*old(self)),
            final(self).depth@ == old(self).depth@,
            final(self).color@ == line_effect_s(
                old(self).color@, old(self).width as int, old(self).height as int,
                old(self).current_color, x0 as int, y0 as int, x1 as int, y1 as int),
            forall|i: int| 0 <= i < final(self).color@.len()
                ==> final(self).color@[i] == old(self).color@[i]
                    || final(self).color@[i] == old(self).current_color,
    {
        let xa: i64 = x0 as i64;
        let ya: i64 = y0 as i64;
        let xb: i64 = x1 as i64;
        let yb: i64 = y1 as i64;
        let dx: i64 = if xb > xa { xb - xa } else { xa - xb };
        let dyn0: i64 = if yb > ya { yb - ya } else { ya - yb };
        let sx: i64 = if xa < xb { 1 } else { -1 };
        let sy: i64 = if ya < yb { 1 } else { -1 };
        let mut err: i64 = dx - dyn0;
        let mut x = xa;
        let mut y = ya;
        let mut done = false;
        let n: i64 = dx + dyn0 + 1;
        let col = self.current_color;
        let mut k: i64 = 0;
        while k < n
            invariant
                self.wf(),
                self.same_shape(*old(self)),
                self.depth@ == old(self).depth@,
                forall|i: int| 0 <= i < self.color@.len()
                    ==> self.color@[i] == old(self).color@[i]
                        || self.color@[i] == old(self).current_color,
                col == old(self).current_color,
                0 <= xa <= MAX_SIDE,
                0 <= ya <= MAX_SIDE,
                0 <= xb <= MAX_SIDE,
                0 <= yb <= MAX_SIDE,
                dx == crate::fixed::abs_s(xb as int - xa as int),
                dyn0 == crate::fixed::abs_s(yb as int - ya as int),
                n == dx + dyn0 + 1,
                sx == (if xa < xb { 1i64 } else { -1i64 }),
                sy == (if ya < yb { 1i64 } else { -1i64 }),
                xa <= x <= xb || xb <= x <= xa,
                ya <= y <= yb || yb <= y <= ya,
                -(k + 1) * 8192 <= err <= (k + 1) * 8192,
                0 <= k <= n,
                (x as int, y as int, err as int, done)
                    == line_state_s(xa as int, ya as int, xb as int, yb as int, k as nat),
                self.color@ == line_fold_s(
                    old(self).color@, old(self).width as int, old(self).height as int,
                    col, xa as int, ya as int, xb as int, yb as int, k as nat),
            decreases n - k,
        {
            if !done {
                let ghost pre = self.color@;
                self.plot(x as usize, y as usize);
                proof {
                    if (x as usize) < self.width && (y as usize) < self.height {
                        lemma_idx_bound(x as int, y as int,
                            self.width as int, self.height as int);
                        let j = (y as int) * (self.width as int) + (x as int);
                        assert(self.color@ == pre.update(j, col));
                        assert forall|i: int| 0 <= i < self.color@.len()
                            implies self.color@[i] == old(self).color@[i]
                                || self.color@[i] == old(self).current_color by {
                            if i != j {
                                assert(self.color@[i] == pre[i]);
                            }
                        }
                    } else {
                        assert(self.color@ == pre);
                    }
                    assert(self.color@ == plot_s(
                        pre, self.width as int, self.height as int, x as int, y as int, col));
                }
                if x == xb && y == yb {
                    done = true;
                } else {
                    let e2 = 2 * err;
                    if e2 >= -dyn0 && x != xb {
                        err = err - dyn0;
                        x = x + sx;
                    }
                    if e2 <= dx && y != yb {
                        err = err + dx;
                        y = y + sy;
                    }
                }
            }
            k = k + 1;
        }
    }

    /// Plot a decorative point in the current draw color, scaled by a
    /// fixed-point intensity, through the same depth-tested commit as the
    /// rasterizer (a bounds-checked write, as the pipeline requires of the
    /// lightweight primitives).
    pub fn point(&mut self, x: usize, y: usize, intensity: i64, depth: i64)
        requires
            old(self).wf(),
            0 <= intensity <= crate::fixed::FX_ONE,
        ensures
            final(self).wf(),
            final(self).same_shape(*old(self)),
            x < old(self).width && y < old(self).height ==> {
                let f = Frag {
                    i: old(self).idx(x as int, y as int),
                    depth,
                    color: crate::color::scale_color_s(
                        old(self).current_color, intensity as int) as u32,
                };
                &&& final(self).color@ == commit1_color_s(old(self).color@, old(self).depth@, f)
                &&& final(self).depth@ == commit1_depth_s(old(self).color@, old(self).depth@, f)
            },
            !(x < old(self).width && y < old(self).height) ==> *final(self) == *old(self),
    {
        let c = crate::color::scale_color(self.current_color, intensity);
        self.commit(x, y, depth, c);
    }
}

/// The fold of a sequence of depth-tested writes over the color and depth
/// buffers: exactly what a rasterized triangle's fragment stream does to a
/// framebuffer.
pub open spec fn commit_seq_s(c: Seq<u32>, d: Seq<i64>, fs: Seq<Frag>) -> (Seq<u32>, Seq<i64>)
    decreases fs.len(),
{
    if fs.len() == 0 {
        (c, d)
    } else {
        commit_seq_s(
            commit1_color_s(c, d, fs[0]),
            commit1_depth_s(c, d, fs[0]),
            fs.subrange(1, fs.len() as int),
        )
    }
}

/// Appending one fragment to a committed stream is one more depth-tested
/// write on the folded state.
pub proof fn lemma_commit_seq_push(c: Seq<u32>, d: Seq<i64>, fs: Seq<Frag>, f: Frag)
    ensures
        commit_seq_s(c, d, fs.push(f)) == (
            commit1_color_s(commit_seq_s(c, d, fs).0, commit_seq_s(c, d, fs).1, f),
            commit1_depth_s(commit_seq_s(c, d, fs).0, commit_seq_s(c, d, fs).1, f),
        ),
    decreases fs.len(),
{
    if fs.len() == 0 {
        let c1 = commit1_color_s(c, d, f);
        let d1 = commit1_depth_s(c, d, f);
        assert(fs.push(f)[0] == f);
        assert(fs.push(f).subrange(1, 1) =~= Seq::<Frag>::empty());
        assert(commit_seq_s(c, d, fs.push(f))
            == commit_seq_s(c1, d1, fs.push(f).subrange(1, 1)));
        assert(commit_seq_s(c1, d1, Seq::<Frag>::empty()) == (c1, d1));
        assert(commit_seq_s(c, d, fs) == (c, d));
    } else {
        let c1 = commit1_color_s(c, d, fs[0]);
        let d1 = commit1_depth_s(c, d, fs[0]);
        let rest = fs.subrange(1, fs.len() as int);
        assert(fs.push(f)[0] == fs[0]);
        assert(fs.push(f).subrange(1, fs.len() + 1 as int) =~= rest.push(f));
        lemma_commit_seq_push(c1, d1, rest, f);
        assert(commit_seq_s(c, d, fs.push(f))
            == commit_seq_s(c1, d1, fs.push(f).subrange(1, fs.len() + 1 as int)));
        assert(commit_seq_s(c, d, fs.push(f)) == commit_seq_s(c1, d1, rest.push(f)));
        assert(commit_seq_s(c, d, fs) == commit_seq_s(c1, d1, rest));
    }
}

/// Committing fragments never changes the buffer lengths and never moves a
/// stored depth farther away.
pub proof fn lemma_commit_seq_shape(c: Seq<u32>, d: Seq<i64>, fs: Seq<Frag>)
    ensures
        commit_seq_s(c, d, fs).0.len() == c.len(),
        commit_seq_s(c, d, fs).1.len() == d.len(),
        forall|j: int| 0 <= j < d.len() ==> commit_seq_s(c, d, fs).1[j] <= d[j],
    decreases fs.len(),
{
    if fs.len() > 0 {
        let c1 = commit1_color_s(c, d, fs[0]);
        let d1 = commit1_depth_s(c, d, fs[0]);
        let rest = fs.subrange(1, fs.len() as int);
        lemma_commit_seq_shape(c1, d1, rest);
        assert forall|j: int| 0 <= j < d.len() implies commit_seq_s(c, d, fs).1[j] <= d[j] by {
            assert(d1[j] <= d[j]);
            assert(commit_seq_s(c1, d1, rest).1[j] <= d1[j]);
        }
    }
}

/// After committing a fragment sequence, every fragment's pixel stores a
/// depth at least as near as that fragment's.
pub proof fn lemma_commit_seq_beats(c: Seq<u32>, d: Seq<i64>, fs: Seq<Frag>)
    ensures
        forall|k: int|
            0 <= k < fs.len() && 0 <= fs[k].i < d.len() && fs[k].i < c.len()
                ==> commit_seq_s(c, d, fs).1[fs[k].i] <= fs[k].depth,
    decreases fs.len(),
{
    if fs.len() > 0 {
        let f = fs[0];
        let c1 = commit1_color_s(c, d, f);
        let d1 = commit1_depth_s(c, d, f);
        let rest = fs.subrange(1, fs.len() as int);
        lemma_commit_seq_beats(c1, d1, rest);
        lemma_commit_seq_shape(c1, d1, rest);
        assert forall|k: int|
            0 <= k < fs.len() && 0 <= fs[k].i < d.len() && fs[k].i < c.len()
                implies commit_seq_s(c, d, fs).1[fs[k].i] <= fs[k].depth by {
            if k == 0 {
                assert(d1[f.i] <= f.depth);
                assert(commit_seq_s(c1, d1, rest).1[f.i] <= d1[f.i]);
            } else {
                assert(rest[k - 1] == fs[k]);
            }
        }
    }
}

/// Fragments that are already beaten by the stored depths change nothing.
pub proof fn lemma_commit_seq_noop(c: Seq<u32>, d: Seq<i64>, fs: Seq<Frag>)
    requires
        forall|k: int|
            0 <= k < fs.len() && 0 <= fs[k].i < d.len() && fs[k].i < c.len()
                ==> d[fs[k].i] <= fs[k].depth,
    ensures
        commit_seq_s(c, d, fs) == (c, d),
    decreases fs.len(),
{
    if fs.len() > 0 {
        let f = fs[0];
        assert(commit1_color_s(c, d, f) == c);
        assert(commit1_depth_s(c, d, f) == d);
        let rest = fs.subrange(1, fs.len() as int);
        assert forall|k: int|
            0 <= k < rest.len() && 0 <= rest[k].i < d.len() && rest[k].i < c.len()
                implies d[rest[k].i] <= rest[k].depth by {
            assert(rest[k] == fs[k + 1]);
        }
        lemma_commit_seq_noop(c, d, rest);
    }
}

/// Depth-test idempotence: committing the very same fragment stream a
/// second time leaves the framebuffer exactly as the first pass left it,
/// because no second-pass depth is strictly nearer than what that pass
/// itself stored.
pub proof fn lemma_depth_test_idempotent(c: Seq<u32>, d: Seq<i64>, fs: Seq<Frag>)
    ensures
        commit_seq_s(commit_seq_s(c, d, fs).0, commit_seq_s(c, d, fs).1, fs)
            == commit_seq_s(c, d, fs),
{
    let c1 = commit_seq_s(c, d, fs).0;
    let d1 = commit_seq_s(c, d, fs).1;
    lemma_commit_seq_shape(c, d, fs);
    lemma_commit_seq_beats(c, d, fs);
    lemma_commit_seq_noop(c1, d1, fs);
}

/// What one fragment does to a single cell's color and depth.
pub open spec fn cell_step_s(s: (u32, i64), f: Frag) -> (u32, i64) {
    if f.depth < s.1 {
        (f.color, f.depth)
    } else {
        s
    }
}

/// The fold of a fragment sequence restricted to one pixel index.
pub open spec fn cell_after_s(s: (u32, i64), fs: Seq<Frag>, j: int) -> (u32, i64)
    decreases fs.len(),
{
    if fs.len() == 0 {
        s
    } else {
        let s1 = if fs[0].i == j {
            cell_step_s(s, fs[0])
        } else {
            s
        };
        cell_after_s(s1, fs.subrange(1, fs.len() as int), j)
    }
}

/// Locality: what the fold leaves at one pixel depends only on the
/// fragments addressed to that pixel.
pub proof fn lemma_commit_seq_cellwise(c: Seq<u32>, d: Seq<i64>, fs: Seq<Frag>, j: int)
    requires
        0 <= j < d.len(),
        j < c.len(),
    ensures
        commit_seq_s(c, d, fs).0[j] == cell_after_s((c[j], d[j]), fs, j).0,
        commit_seq_s(c, d, fs).1[j] == cell_after_s((c[j], d[j]), fs, j).1,
    decreases fs.len(),
{
    if fs.len() > 0 {
        let f = fs[0];
        let c1 = commit1_color_s(c, d, f);
        let d1 = commit1_depth_s(c, d, f);
        let rest = fs.subrange(1, fs.len() as int);
        lemma_commit_seq_cellwise(c1, d1, rest, j);
    }
}

/// A fragment stream with no fragment at a pixel leaves that cell alone.
pub proof fn lemma_cell_after_absent(s: (u32, i64), fs: Seq<Frag>, j: int)
    requires
        forall|k: int| 0 <= k < fs.len() ==> fs[k].i != j,
    ensures
        cell_after_s(s, fs, j) == s,
    decreases fs.len(),
{
    if fs.len() > 0 {
        let rest = fs.subrange(1, fs.len() as int);
        assert forall|k: int| 0 <= k < rest.len() implies rest[k].i != j by {
            assert(rest[k] == fs[k + 1]);
        }
        lemma_cell_after_absent(s, rest, j);
    }
}

/// A fragment stream with exactly one fragment at a pixel acts on that cell
/// as that single depth-tested write.
pub proof fn lemma_cell_after_single(s: (u32, i64), fs: Seq<Frag>, j: int, k0: int)
    requires
        0 <= k0 < fs.len(),
        fs[k0].i == j,
        forall|k: int| 0 <= k < fs.len() && k != k0 ==> fs[k].i != j,
    ensures
        cell_after_s(s, fs, j) == cell_step_s(s, fs[k0]),
    decreases fs.len(),
{
    let rest = fs.subrange(1, fs.len() as int);
    if k0 == 0 {
        assert forall|k: int| 0 <= k < rest.len() implies rest[k].i != j by {
            assert(rest[k] == fs[k + 1]);
        }
        lemma_cell_after_absent(cell_step_s(s, fs[0]), rest, j);
    } else {
        assert(fs[0].i != j);
        assert forall|k: int| 0 <= k < rest.len() && k != k0 - 1 implies rest[k].i != j by {
            assert(rest[k] == fs[k + 1]);
        }
        assert(rest[k0 - 1] == fs[k0]);
        lemma_cell_after_single(s, rest, j, k0 - 1);
    }
}

/// Order independence: two fragment streams that each touch every pixel at
/// most once, and whose depths differ wherever they share a pixel, commit
/// to the same framebuffer in either order.
pub proof fn lemma_depth_test_order_independent(
    c: Seq<u32>,
    d: Seq<i64>,
    a: Seq<Frag>,
    b: Seq<Frag>,
)
    requires
        c.len() == d.len(),
        forall|k1: int, k2: int| 0 <= k1 < k2 < a.len() ==> a[k1].i != a[k2].i,
        forall|k1: int, k2: int| 0 <= k1 < k2 < b.len() ==> b[k1].i != b[k2].i,
        forall|ka: int, kb: int|
            0 <= ka < a.len() && 0 <= kb < b.len() && a[ka].i == b[kb].i
                ==> a[ka].depth != b[kb].depth,
    ensures
        commit_seq_s(commit_seq_s(c, d, a).0, commit_seq_s(c, d, a).1, b)
            == commit_seq_s(commit_seq_s(c, d, b).0, commit_seq_s(c, d, b).1, a),
{
    let ab = commit_seq_s(commit_seq_s(c, d, a).0, commit_seq_s(c, d, a).1, b);
    let ba = commit_seq_s(commit_seq_s(c, d, b).0, commit_seq_s(c, d, b).1, a);
    lemma_commit_seq_shape(c, d, a);
    lemma_commit_seq_shape(c, d, b);
    lemma_commit_seq_shape(commit_seq_s(c, d, a).0, commit_seq_s(c, d, a).1, b);
    lemma_commit_seq_shape(commit_seq_s(c, d, b).0, commit_seq_s(c, d, b).1, a);
    assert forall|j: int| 0 <= j < d.len() && j < c.len() implies ab.0[j] == ba.0[j]
        && ab.1[j] == ba.1[j] by {
        lemma_commit_seq_cellwise(c, d, a, j);
        lemma_commit_seq_cellwise(c, d, b, j);
        lemma_commit_seq_cellwise(commit_seq_s(c, d, a).0, commit_seq_s(c, d, a).1, b, j);
        lemma_commit_seq_cellwise(commit_seq_s(c, d, b).0, commit_seq_s(c, d, b).1, a, j);
        let s0 = (c[j], d[j]);
        if exists|k: int| 0 <= k < a.len() && a[k].i == j {
            let ka = choose|k: int| 0 <= k < a.len() && a[k].i == j;
            if exists|k: int| 0 <= k < b.len() && b[k].i == j {
                let kb = choose|k: int| 0 <= k < b.len() && b[k].i == j;
                lemma_cell_after_single(s0, a, j, ka);
                lemma_cell_after_single(s0, b, j, kb);
                lemma_cell_after_single(cell_after_s(s0, a, j), b, j, kb);
                lemma_cell_after_single(cell_after_s(s0, b, j), a, j, ka);
                assert(a[ka].depth != b[kb].depth);
            } else {
                assert forall|k: int| 0 <= k < b.len() implies b[k].i != j by {}
                lemma_cell_after_single(s0, a, j, ka);
                lemma_cell_after_absent(s0, b, j);
                lemma_cell_after_absent(cell_after_s(s0, a, j), b, j);
                lemma_cell_after_single(cell_after_s(s0, b, j), a, j, ka);
            }
        } else {
            assert forall|k: int| 0 <= k < a.len() implies a[k].i != j by {}
            if exists|k: int| 0 <= k < b.len() && b[k].i == j {
                let kb = choose|k: int| 0 <= k < b.len() && b[k].i == j;
                lemma_cell_after_single(s0, b, j, kb);
                lemma_cell_after_absent(s0, a, j);
                lemma_cell_after_absent(cell_after_s(s0, b, j), a, j);
                lemma_cell_after_single(cell_after_s(s0, a, j), b, j, kb);
            } else {
                lemma_cell_after_absent(s0, a, j);
                lemma_cell_after_absent(s0, b, j);
                lemma_cell_after_absent(cell_after_s(s0, a, j), b, j);
                lemma_cell_after_absent(cell_after_s(s0, b, j), a, j);
            }
        }
    }
    assert(ab.0 =~= ba.0);
    assert(ab.1 =~= ba.1);
}

/// A vector of `n` copies of one color word.
fn filled_u32(n: usize, v: u32) -> (r: Vec<u32>)
    ensures
        r@ == Seq::new(n as nat, |i: int| v),
{
    let mut r: Vec<u32> = Vec::new();
    let mut k: usize = 0;
    while k < n
        invariant
            k <= n,
            r@ == Seq::new(k as nat, |i: int| v),
        decreases n - k,
    {
        r.push(v);
        k = k + 1;
        proof {
            assert(r@ =~= Seq::new(k as nat, |i: int| v));
        }
    }
    r
}

/// A vector of `n` copies of one depth value.
fn filled_i64(n: usize, v: i64) -> (r: Vec<i64>)
    ensures
        r@ == Seq::new(n as nat, |i: int| v),
{
    let mut r: Vec<i64> = Vec::new();
    let mut k: usize = 0;
    while k < n
        invariant
            k <= n,
            r@ == Seq::new(k as nat, |i: int| v),
        decreases n - k,
    {
        r.push(v);
        k = k + 1;
        proof {
            assert(r@ =~= Seq::new(k as nat, |i: int| v));
        }
    }
    r
}

} // verus!
