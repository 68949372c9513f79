use planets::framebuffer::Framebuffer;
use planets::framebuffer::DEPTH_FAR;
use planets::linalg::V3;
use planets::transform::create_model_matrix;
use planets::transform::create_view_matrix;
use planets::transform::create_perspective_matrix;
use planets::transform::create_viewport_matrix;
use planets::shader::Uniforms;
use planets::shader::ShaderKind;
use planets::shader::Fragment;
use planets::shader::shade;
use planets::noise::NoiseField;
use planets::render::Vertex;
use planets::render::render;
use planets::render::draw_triangle;
use planets::raster::RVert;
use planets::raster::raster_tri;
use planets::bloom::BLOOM_THRESHOLD;
use planets::color::lum;
use planets::fixed::FX_ONE;

fn fx(v: f32) -> i64 {
    (v * 65536.0) as i64
}

fn sphere_mesh(stacks: usize, slices: usize) -> Vec<Vertex> {
    let pi = std::f32::consts::PI;
    let point = |i: usize, j: usize| -> V3 {
        let t = pi * (i as f32) / (stacks as f32);
        let p = 2.0 * pi * (j as f32) / (slices as f32);
        V3 {
            x: fx(t.sin() * p.cos()),
            y: fx(t.cos()),
            z: fx(t.sin() * p.sin()),
        }
    };
    let mut verts = Vec::new();
    for i in 0..stacks {
        for j in 0..slices {
            let a = point(i, j);
            let b = point(i + 1, j);
            let c = point(i + 1, j + 1);
            let d = point(i, j + 1);
            for v in [a, b, c, a, c, d] {
                verts.push(Vertex { pos: v, normal: v });
            }
        }
    }
    verts
}

fn scene_uniforms(shader: ShaderKind) -> Uniforms {
    Uniforms {
        model: create_model_matrix(
            V3 { x: 0, y: 0, z: 0 }, FX_ONE, V3 { x: 0, y: 0, z: 0 }),
        view: create_view_matrix(
            V3 { x: 0, y: 0, z: fx(5.0) },
            V3 { x: 0, y: 0, z: 0 },
            V3 { x: 0, y: FX_ONE, z: 0 }),
        projection: create_perspective_matrix(600, 600),
        viewport: create_viewport_matrix(600, 600),
        time: 0,
        shader,
    }
}

#[test]
fn unit_sphere_covers_the_image_center() {
    // a unit sphere seen from (0, 0, 5) with a 45 degree field of view on
    // a 600 x 600 viewport must leave a committed, finite depth at the
    // exact image center
    let mut fb = Framebuffer::new(600, 600);
    fb.clear();
    let u = scene_uniforms(ShaderKind::Rocky { surface: NoiseField { seed: 7 } });
    let mesh = sphere_mesh(16, 24);
    render(&mut fb, &u, &mesh);
    assert!(fb.get_depth(300, 300) < DEPTH_FAR, "center pixel was not covered");
    assert_ne!(fb.get_color(300, 300), fb.background);
}

#[test]
fn fully_clipped_triangle_emits_no_fragments() {
    // all three vertices sit behind the camera plane, so their clip w
    // fails the w > 0 test and the rasterizer must not touch one pixel
    let mut fb = Framebuffer::new(64, 64);
    fb.clear();
    let u = scene_uniforms(ShaderKind::Rocky { surface: NoiseField { seed: 7 } });
    let n = V3 { x: 0, y: 0, z: FX_ONE };
    draw_triangle(
        &mut fb, &u,
        Vertex { pos: V3 { x: fx(-0.5), y: fx(-0.5), z: fx(10.0) }, normal: n },
        Vertex { pos: V3 { x: fx(0.5), y: fx(-0.5), z: fx(10.0) }, normal: n },
        Vertex { pos: V3 { x: 0, y: fx(0.5), z: fx(10.0) }, normal: n },
    );
    for y in 0..64 {
        for x in 0..64 {
            assert_eq!(fb.get_color(x, y), 0);
            assert_eq!(fb.get_depth(x, y), DEPTH_FAR);
        }
    }
}

#[test]
fn drawing_the_same_triangle_twice_changes_nothing() {
    // depth-test idempotence: the second pass's depths are never strictly
    // nearer, so the framebuffer is identical to a single pass
    let u = scene_uniforms(ShaderKind::Rocky { surface: NoiseField { seed: 3 } });
    let n = V3 { x: 0, y: 0, z: FX_ONE };
    let tri = [
        Vertex { pos: V3 { x: fx(-0.5), y: fx(-0.5), z: fx(1.0) }, normal: n },
        Vertex { pos: V3 { x: fx(0.5), y: fx(-0.5), z: fx(1.0) }, normal: n },
        Vertex { pos: V3 { x: 0, y: fx(0.5), z: fx(1.0) }, normal: n },
    ];
    let mut once = Framebuffer::new(600, 600);
    once.clear();
    draw_triangle(&mut once, &u, tri[0], tri[1], tri[2]);
    let mut twice = Framebuffer::new(600, 600);
    twice.clear();
    draw_triangle(&mut twice, &u, tri[0], tri[1], tri[2]);
    draw_triangle(&mut twice, &u, tri[0], tri[1], tri[2]);
    let mut covered = 0;
    for y in 0..600 {
        for x in 0..600 {
            assert_eq!(once.get_color(x, y), twice.get_color(x, y));
            assert_eq!(once.get_depth(x, y), twice.get_depth(x, y));
            if once.get_depth(x, y) < DEPTH_FAR {
                covered += 1;
            }
        }
    }
    assert!(covered > 0, "the triangle covered nothing");
}

fn flat_vert(px: i64, py: i64, z: i64) -> RVert {
    RVert {
        px, py, z,
        iw: FX_ONE,
        nx: 0, ny: 0, nz: FX_ONE,
        wx: px * 16, wy: py * 16, wz: z,
    }
}

#[test]
fn overlapping_triangles_draw_order_independent() {
    // two overlapping triangles with distinct depths at every covered
    // pixel: the nearest one wins regardless of submission order
    let u = scene_uniforms(ShaderKind::Rocky { surface: NoiseField { seed: 5 } });
    let a = [
        flat_vert(2, 2, 1000 * FX_ONE),
        flat_vert(30, 2, 1000 * FX_ONE),
        flat_vert(2, 30, 1000 * FX_ONE),
    ];
    let b = [
        flat_vert(8, 8, 2000 * FX_ONE),
        flat_vert(40, 8, 2000 * FX_ONE),
        flat_vert(8, 40, 2000 * FX_ONE),
    ];
    let mut ab = Framebuffer::new(64, 64);
    ab.clear();
    raster_tri(&mut ab, &u, a[0], a[1], a[2]);
    raster_tri(&mut ab, &u, b[0], b[1], b[2]);
    let mut ba = Framebuffer::new(64, 64);
    ba.clear();
    raster_tri(&mut ba, &u, b[0], b[1], b[2]);
    raster_tri(&mut ba, &u, a[0], a[1], a[2]);
    for y in 0..64 {
        for x in 0..64 {
            assert_eq!(ab.get_color(x, y), ba.get_color(x, y), "color at {x},{y}");
            assert_eq!(ab.get_depth(x, y), ba.get_depth(x, y), "depth at {x},{y}");
        }
    }
    // both triangles actually drew: the overlap region holds A's depth
    assert_eq!(ab.get_depth(10, 10), 1000 * FX_ONE);
    assert!(ab.get_depth(35, 9) == 2000 * FX_ONE);
}

#[test]
fn emissive_shader_outshines_the_bloom_threshold() {
    // the emissive variant, at the body's surface point nearest the
    // camera, stays above the bloom luminance threshold at every tested
    // frame time
    for time in [0u32, 1, 1000] {
        let mut u = scene_uniforms(ShaderKind::Emissive { core: NoiseField { seed: 11 } });
        u.time = time;
        let f = Fragment {
            x: 300,
            y: 300,
            depth: fx(0.9),
            normal: V3 { x: 0, y: 0, z: FX_ONE },
            obj: V3 { x: 0, y: 0, z: FX_ONE },
        };
        let c = shade(&f, &u);
        assert!(lum(c) >= BLOOM_THRESHOLD, "time {time}: luminance {}", lum(c));
    }
}

#[test]
fn orbit_outline_draws_yellow_segments() {
    // a unit-radius orbit around the origin, seen from (0, 0, 5): every
    // segment is in front of the camera, so the overlay paints yellow
    // pixels, leaves the depth buffer alone, and leaves the draw color
    // register yellow
    let mut fb = Framebuffer::new(600, 600);
    fb.clear();
    let u = scene_uniforms(ShaderKind::Rocky { surface: NoiseField { seed: 7 } });
    let before_depth: Vec<i64> = (0..600usize)
        .map(|x| fb.get_depth(x, 300))
        .collect();
    planets::render::draw_orbit(&mut fb, V3 { x: 0, y: 0, z: 0 }, FX_ONE, &u);
    let mut yellow = 0;
    for y in 0..600 {
        for x in 0..600 {
            if fb.get_color(x, y) == 0xFFFF00 {
                yellow += 1;
            }
        }
    }
    assert!(yellow > 0, "no orbit pixel was drawn");
    assert_eq!(fb.current_color, 0xFFFF00);
    for x in 0..600usize {
        assert_eq!(fb.get_depth(x, 300), before_depth[x]);
    }
}

#[test]
fn orbit_behind_the_camera_draws_nothing() {
    // the whole ring sits behind the camera plane: every endpoint fails
    // the clip w > 0 test, so not one pixel changes
    let mut fb = Framebuffer::new(64, 64);
    fb.clear();
    let u = scene_uniforms(ShaderKind::Rocky { surface: NoiseField { seed: 7 } });
    planets::render::draw_orbit(&mut fb, V3 { x: 0, y: 0, z: fx(10.0) }, FX_ONE, &u);
    for y in 0..64 {
        for x in 0..64 {
            assert_eq!(fb.get_color(x, y), 0);
        }
    }
    assert_eq!(fb.current_color, 0xFFFFFF);
}

#[test]
fn stars_commit_white_points_with_depth() {
    // each in-bounds position becomes a white pixel at the star depth;
    // out-of-bounds positions are dropped
    let mut fb = Framebuffer::new(32, 32);
    fb.clear();
    let positions = vec![(3usize, 4usize), (31, 31), (32, 0), (0, 32), (1000, 1000)];
    planets::render::draw_stars(&mut fb, &positions);
    assert_eq!(fb.get_color(3, 4), 0xFFFFFF);
    assert_eq!(fb.get_depth(3, 4), planets::render::STAR_DEPTH);
    assert_eq!(fb.get_color(31, 31), 0xFFFFFF);
    let mut white = 0;
    for y in 0..32 {
        for x in 0..32 {
            if fb.get_color(x, y) == 0xFFFFFF {
                white += 1;
            }
        }
    }
    assert_eq!(white, 2);
}
