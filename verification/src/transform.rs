//! The transform stage: pure constructors for the model, view, perspective
//! and viewport matrices, and the projection of a vertex through them.
//!
//! The perspective projection is fixed for reproducibility: a 45 degree
//! vertical field of view, near plane 0.1, far plane 100, aspect ratio
//! `width / height`. A vertex whose clip-space w is not strictly positive
//! is behind or on the camera plane and is excluded from rasterization
//! rather than divided.

use vstd::prelude::*;
use crate::fixed::fx_ok;
use crate::fixed::fx_add_s;
use crate::fixed::fx_mul_s;
use crate::fixed::fx_div_s;
use crate::fixed::sin_s;
use crate::fixed::cos_s;
use crate::fixed::fx_add;
use crate::fixed::fx_mul;
use crate::fixed::fx_div;
use crate::fixed::fx_sin;
use crate::fixed::fx_cos;
use crate::fixed::euclid_div_rem;
use crate::fixed::FX_ONE;
use crate::linalg::V3;
use crate::linalg::V4;
use crate::linalg::Mat4;
use crate::linalg::v3_ok;
use crate::linalg::v4_ok;
use crate::linalg::mat_ok;
use crate::linalg::mat_mul_s;
use crate::linalg::mat_mul;
use crate::linalg::mat_vec_s;
use crate::linalg::mat_vec;
use crate::linalg::normalize_s;
use crate::linalg::normalize;
use crate::linalg::cross_s;
use crate::linalg::cross;
use crate::linalg::sub3_s;
use crate::linalg::sub3;
use crate::linalg::dot3_s;
use crate::linalg::dot3;
use crate::linalg::to_point;

verus! {

/// The near clipping plane distance, 0.1.
pub const NEAR_PLANE: i64 = 6554;

/// The far clipping plane distance, 100.
pub const FAR_PLANE: i64 = 6553600;

/// `1 / tan(45 deg / 2)`: the focal factor of the fixed field of view.
pub const PERSP_FOCAL: i64 = 158218;

/// A uniform scale matrix.
pub open spec fn scale_mat_s(s: i64) -> Mat4 {
    Mat4 {
        m00: s, m01: 0, m02: 0, m03: 0,
        m10: 0, m11: s, m12: 0, m13: 0,
        m20: 0, m21: 0, m22: s, m23: 0,
        m30: 0, m31: 0, m32: 0, m33: FX_ONE,
    }
}

/// A translation matrix.
pub open spec fn translate_mat_s(t: V3) -> Mat4 {
    Mat4 {
        m00: FX_ONE, m01: 0, m02: 0, m03: t.x,
        m10: 0, m11: FX_ONE, m12: 0, m13: t.y,
        m20: 0, m21: 0, m22: FX_ONE, m23: t.z,
        m30: 0, m31: 0, m32: 0, m33: FX_ONE,
    }
}

/// Rotation about the x axis by a fixed-point angle in radians.
pub open spec fn rot_x_s(a: int) -> Mat4 {
    Mat4 {
        m00: FX_ONE, m01: 0, m02: 0, m03: 0,
        m10: 0, m11: cos_s(a) as i64, m12: (-sin_s(a)) as i64, m13: 0,
        m20: 0, m21: sin_s(a) as i64, m22: cos_s(a) as i64, m23: 0,
        m30: 0, m31: 0, m32: 0, m33: FX_ONE,
    }
}

/// Rotation about the y axis.
pub open spec fn rot_y_s(a: int) -> Mat4 {
    Mat4 {
        m00: cos_s(a) as i64, m01: 0, m02: sin_s(a) as i64, m03: 0,
        m10: 0, m11: FX_ONE, m12: 0, m13: 0,
        m20: (-sin_s(a)) as i64, m21: 0, m22: cos_s(a) as i64, m23: 0,
        m30: 0, m31: 0, m32: 0, m33: FX_ONE,
    }
}

/// Rotation about the z axis.
pub open spec fn rot_z_s(a: int) -> Mat4 {
    Mat4 {
        m00: cos_s(a) as i64, m01: (-sin_s(a)) as i64, m02: 0, m03: 0,
        m10: sin_s(a) as i64, m11: cos_s(a) as i64, m12: 0, m13: 0,
        m20: 0, m21: 0, m22: FX_ONE, m23: 0,
        m30: 0, m31: 0, m32: 0, m33: FX_ONE,
    }
}

/// The model matrix: scale, then rotation about x, y and z in that order,
/// then translation, so object-space vertices come out sized, oriented and
/// positioned.
pub open spec fn model_matrix_s(t: V3, sc: i64, r: V3) -> Mat4 {
    mat_mul_s(
        translate_mat_s(t),
        mat_mul_s(
            rot_z_s(r.z as int),
            mat_mul_s(rot_y_s(r.y as int), mat_mul_s(rot_x_s(r.x as int), scale_mat_s(sc))),
        ),
    )
}

/// Build the model matrix from a translation, a uniform scale and Euler
/// rotation angles.
pub fn create_model_matrix(translation: V3, scale: i64, rotation: V3) -> (m: Mat4)
    requires
        v3_ok(translation),
        fx_ok(scale),
        v3_ok(rotation),
    ensures
        m == model_matrix_s(translation, scale, rotation),
        mat_ok(m),
{
    let sxv = fx_sin(rotation.x);
    let cxv = fx_cos(rotation.x);
    let syv = fx_sin(rotation.y);
    let cyv = fx_cos(rotation.y);
    let szv = fx_sin(rotation.z);
    let czv = fx_cos(rotation.z);
    let smat = Mat4 {
        m00: scale, m01: 0, m02: 0, m03: 0,
        m10: 0, m11: scale, m12: 0, m13: 0,
        m20: 0, m21: 0, m22: scale, m23: 0,
        m30: 0, m31: 0, m32: 0, m33: FX_ONE,
    };
    let rx = Mat4 {
        m00: FX_ONE, m01: 0, m02: 0, m03: 0,
        m10: 0, m11: cxv, m12: -sxv, m13: 0,
        m20: 0, m21: sxv, m22: cxv, m23: 0,
        m30: 0, m31: 0, m32: 0, m33: FX_ONE,
    };
    let ry = Mat4 {
        m00: cyv, m01: 0, m02: syv, m03: 0,
        m10: 0, m11: FX_ONE, m12: 0, m13: 0,
        m20: -syv, m21: 0, m22: cyv, m23: 0,
        m30: 0, m31: 0, m32: 0, m33: FX_ONE,
    };
    let rz = Mat4 {
        m00: czv, m01: -szv, m02: 0, m03: 0,
        m10: szv, m11: czv, m12: 0, m13: 0,
        m20: 0, m21: 0, m22: FX_ONE, m23: 0,
        m30: 0, m31: 0, m32: 0, m33: FX_ONE,
    };
    let tmat = Mat4 {
        m00: FX_ONE, m01: 0, m02: 0, m03: translation.x,
        m10: 0, m11: FX_ONE, m12: 0, m13: translation.y,
        m20: 0, m21: 0, m22: FX_ONE, m23: translation.z,
        m30: 0, m31: 0, m32: 0, m33: FX_ONE,
    };
    let a = mat_mul(&rx, &smat);
    let b = mat_mul(&ry, &a);
    let c = mat_mul(&rz, &b);
    mat_mul(&tmat, &c)
}

/// The look-at view matrix: rows are the camera's right, true-up and
/// backward axes, with the translation that moves the eye to the origin.
pub open spec fn view_matrix_s(eye: V3, center: V3, up: V3) -> Mat4 {
    let f = normalize_s(sub3_s(center, eye));
    let r = normalize_s(cross_s(f, up));
    let u = cross_s(r, f);
    Mat4 {
        m00: r.x, m01: r.y, m02: r.z, m03: (-dot3_s(r, eye)) as i64,
        m10: u.x, m11: u.y, m12: u.z, m13: (-dot3_s(u, eye)) as i64,
        m20: (-(f.x as int)) as i64, m21: (-(f.y as int)) as i64,
        m22: (-(f.z as int)) as i64, m23: dot3_s(f, eye) as i64,
        m30: 0, m31: 0, m32: 0, m33: FX_ONE,
    }
}

/// Build the view matrix from the camera's eye, look-at center and up.
pub fn create_view_matrix(eye: V3, center: V3, up: V3) -> (m: Mat4)
    requires
        v3_ok(eye),
        v3_ok(center),
        v3_ok(up),
    ensures
        m == view_matrix_s(eye, center, up),
        mat_ok(m),
{
    let f = normalize(sub3(center, eye));
    let r = normalize(cross(f, up));
    let u = cross(r, f);
    Mat4 {
        m00: r.x, m01: r.y, m02: r.z, m03: -dot3(r, eye),
        m10: u.x, m11: u.y, m12: u.z, m13: -dot3(u, eye),
        m20: -f.x, m21: -f.y, m22: -f.z, m23: dot3(f, eye),
        m30: 0, m31: 0, m32: 0, m33: FX_ONE,
    }
}

/// The perspective matrix for an output of the given pixel size, with the
/// fixed field of view and clip planes.
pub open spec fn perspective_matrix_s(width: int, height: int) -> Mat4 {
    let aspect = fx_div_s(width * (FX_ONE as int), height * (FX_ONE as int));
    Mat4 {
        m00: fx_div_s(PERSP_FOCAL as int, aspect) as i64, m01: 0, m02: 0, m03: 0,
        m10: 0, m11: PERSP_FOCAL, m12: 0, m13: 0,
        m20: 0, m21: 0,
        m22: fx_div_s(
            -((FAR_PLANE + NEAR_PLANE) as int), (FAR_PLANE - NEAR_PLANE) as int) as i64,
        m23: fx_div_s(
            -2 * fx_mul_s(FAR_PLANE as int, NEAR_PLANE as int),
            (FAR_PLANE - NEAR_PLANE) as int,
        ) as i64,
        m30: 0, m31: 0, m32: (-FX_ONE) as i64, m33: 0,
    }
}

/// Build the perspective matrix for the given viewport size in pixels.
pub fn create_perspective_matrix(width: usize, height: usize) -> (m: Mat4)
    requires
        width <= 4096,
        height <= 4096,
    ensures
        m == perspective_matrix_s(width as int, height as int),
        mat_ok(m),
{
    let wfx: i64 = (width as i64) * FX_ONE;
    let hfx: i64 = (height as i64) * FX_ONE;
    let aspect = fx_div(wfx, hfx);
    let fn2 = fx_mul(FAR_PLANE, NEAR_PLANE);
    Mat4 {
        m00: fx_div(PERSP_FOCAL, aspect), m01: 0, m02: 0, m03: 0,
        m10: 0, m11: PERSP_FOCAL, m12: 0, m13: 0,
        m20: 0, m21: 0,
        m22: fx_div(-(FAR_PLANE + NEAR_PLANE), FAR_PLANE - NEAR_PLANE),
        m23: fx_div(-2 * fn2, FAR_PLANE - NEAR_PLANE),
        m30: 0, m31: 0, m32: -FX_ONE, m33: 0,
    }
}

/// The viewport matrix: maps normalized device coordinates in `[-1, 1]` to
/// pixels in `[0, width) x [0, height)` with y flipped downward, and depth
/// into `[0, 1]`.
pub open spec fn viewport_matrix_s(width: int, height: int) -> Mat4 {
    Mat4 {
        m00: (width * 32768) as i64, m01: 0, m02: 0, m03: (width * 32768) as i64,
        m10: 0, m11: (-(height * 32768)) as i64, m12: 0, m13: (height * 32768) as i64,
        m20: 0, m21: 0, m22: 32768, m23: 32768,
        m30: 0, m31: 0, m32: 0, m33: FX_ONE,
    }
}

/// Build the viewport matrix for the given output size in pixels.
pub fn create_viewport_matrix(width: usize, height: usize) -> (m: Mat4)
    requires
        width <= 4096,
        height <= 4096,
    ensures
        m == viewport_matrix_s(width as int, height as int),
        mat_ok(m),
{
    let wh: i64 = (width as i64) * 32768;
    let hh: i64 = (height as i64) * 32768;
    Mat4 {
        m00: wh, m01: 0, m02: 0, m03: wh,
        m10: 0, m11: -hh, m12: 0, m13: hh,
        m20: 0, m21: 0, m22: 32768, m23: 32768,
        m30: 0, m31: 0, m32: 0, m33: FX_ONE,
    }
}

/// A position taken to clip space: `projection * view * model * position`,
/// each product in fixed point.
pub open spec fn clip_s(model: Mat4, view: Mat4, proj: Mat4, pos: V3) -> V4 {
    mat_vec_s(proj, mat_vec_s(view, mat_vec_s(model, V4 { x: pos.x, y: pos.y, z: pos.z, w: FX_ONE })))
}

/// Take an object-space position to clip space.
pub fn to_clip(model: &Mat4, view: &Mat4, proj: &Mat4, pos: V3) -> (r: V4)
    requires
        mat_ok(*model),
        mat_ok(*view),
        mat_ok(*proj),
        v3_ok(pos),
    ensures
        r == clip_s(*model, *view, *proj, pos),
        v4_ok(r),
{
    let p = to_point(pos);
    let a = mat_vec(model, p);
    let b = mat_vec(view, a);
    mat_vec(proj, b)
}

/// A fixed-point screen coordinate rounded to a whole pixel and held
/// within a generous guard band around the framebuffer (pixels that far
/// outside are clipped by the raster bounding box anyway).
pub open spec fn px_of_s(v: int) -> int {
    let p = fx_add_s(v, 32768) / (FX_ONE as int);
    if p > 0x10_0000 {
        0x10_0000
    } else if p < -0x10_0000 {
        -0x10_0000
    } else {
        p
    }
}

/// Round a fixed-point screen coordinate to a clamped whole pixel.
pub fn px_of(v: i64) -> (r: i64)
    requires
        fx_ok(v),
    ensures
        r == px_of_s(v as int),
        -0x10_0000 <= r <= 0x10_0000,
{
    let s = fx_add(v, 32768);
    let (q, _rm) = euclid_div_rem(s, FX_ONE);
    if q > 0x10_0000 {
        0x10_0000
    } else if q < -0x10_0000 {
        -0x10_0000
    } else {
        q
    }
}

} // verus!
