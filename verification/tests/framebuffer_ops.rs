use planets::framebuffer::Framebuffer;
use planets::framebuffer::DEPTH_FAR;

#[test]
fn clear_resets_colors_and_depths() {
    let mut fb = Framebuffer::new(8, 4);
    fb.set_background_color(20);
    fb.commit(3, 2, 100, 0xABCDEF);
    fb.clear();
    for y in 0..4 {
        for x in 0..8 {
            assert_eq!(fb.get_color(x, y), 20);
            assert_eq!(fb.get_depth(x, y), DEPTH_FAR);
        }
    }
}

#[test]
fn commit_keeps_the_nearest_fragment() {
    let mut fb = Framebuffer::new(4, 4);
    fb.commit(1, 1, 5000, 0x112233);
    assert_eq!(fb.get_color(1, 1), 0x112233);
    assert_eq!(fb.get_depth(1, 1), 5000);
    // a farther fragment is rejected
    fb.commit(1, 1, 6000, 0x445566);
    assert_eq!(fb.get_color(1, 1), 0x112233);
    assert_eq!(fb.get_depth(1, 1), 5000);
    // an equal depth is rejected too: the test is strict
    fb.commit(1, 1, 5000, 0x445566);
    assert_eq!(fb.get_color(1, 1), 0x112233);
    // a nearer fragment wins
    fb.commit(1, 1, 4000, 0x778899);
    assert_eq!(fb.get_color(1, 1), 0x778899);
    assert_eq!(fb.get_depth(1, 1), 4000);
}

#[test]
fn out_of_bounds_writes_are_dropped() {
    let mut fb = Framebuffer::new(4, 4);
    fb.commit(4, 0, 100, 0x111111);
    fb.commit(0, 4, 100, 0x111111);
    fb.commit(1000, 1000, 100, 0x111111);
    fb.point(77, 1, 65536, 100);
    for y in 0..4 {
        for x in 0..4 {
            assert_eq!(fb.get_color(x, y), 0);
            assert_eq!(fb.get_depth(x, y), DEPTH_FAR);
        }
    }
}

#[test]
fn line_writes_only_the_current_color() {
    let mut fb = Framebuffer::new(16, 16);
    fb.set_current_color(0xFFFF00);
    fb.line(0, 0, 15, 15);
    // endpoints are drawn
    assert_eq!(fb.get_color(0, 0), 0xFFFF00);
    assert_eq!(fb.get_color(15, 15), 0xFFFF00);
    let mut painted = 0;
    for y in 0..16 {
        for x in 0..16 {
            let c = fb.get_color(x, y);
            assert!(c == 0 || c == 0xFFFF00);
            if c == 0xFFFF00 {
                painted += 1;
            }
            // the depth buffer is untouched
            assert_eq!(fb.get_depth(x, y), DEPTH_FAR);
        }
    }
    assert!(painted >= 16);
}

#[test]
fn point_scales_the_current_color_and_depth_tests() {
    let mut fb = Framebuffer::new(4, 4);
    fb.set_current_color(0xFFFFFF);
    // full intensity writes white
    fb.point(0, 0, 65536, 100);
    assert_eq!(fb.get_color(0, 0), 0xFFFFFF);
    assert_eq!(fb.get_depth(0, 0), 100);
    // half intensity writes mid gray
    fb.point(1, 0, 32768, 100);
    assert_eq!(fb.get_color(1, 0), 0x7F7F7F);
    // a farther point does not overwrite
    fb.point(0, 0, 65536, 200);
    assert_eq!(fb.get_depth(0, 0), 100);
}

#[test]
fn star_refresh_fires_on_interval_or_empty() {
    assert!(planets::render::stars_need_refresh(0, 20, 300));
    assert!(planets::render::stars_need_refresh(40, 20, 300));
    assert!(!planets::render::stars_need_refresh(41, 20, 300));
    assert!(planets::render::stars_need_refresh(41, 20, 0));
}
