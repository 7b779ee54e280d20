use solar_renderer::framebuffer::{depth_key, Color, Framebuffer, FAR_DEPTH};

#[test]
fn new_framebuffer_is_far_and_black() {
    let fb = Framebuffer::new(4, 3);
    assert_eq!(fb.width(), 4);
    assert_eq!(fb.height(), 3);
    assert_eq!(fb.background_color(), Color::new(0, 0, 0, 255));
    for y in 0..3 {
        for x in 0..4 {
            assert_eq!(fb.depth_at(x, y), Some(FAR_DEPTH));
        }
    }
}

#[test]
fn empty_framebuffer_draws_nothing() {
    let mut fb = Framebuffer::new(0, 0);
    assert!(!fb.contains(0, 0));
    assert!(!fb.point(0, 0, 1));
    assert_eq!(fb.depth_at(0, 0), None);
}

#[test]
fn point_draws_when_nearer_and_reads_back() {
    let mut fb = Framebuffer::new(4, 3);
    assert!(fb.point(2, 1, 100));
    assert_eq!(fb.depth_at(2, 1), Some(100));
    assert_eq!(fb.depth_at(1, 2), Some(FAR_DEPTH));
    assert_eq!(fb.index_of(2, 1), 6);
}

#[test]
fn point_rejects_farther_or_equal_depth() {
    let mut fb = Framebuffer::new(4, 3);
    assert!(fb.point(0, 0, 50));
    assert!(!fb.point(0, 0, 50));
    assert!(!fb.point(0, 0, 60));
    assert_eq!(fb.depth_at(0, 0), Some(50));
    assert!(fb.point(0, 0, 10));
    assert_eq!(fb.depth_at(0, 0), Some(10));
}

#[test]
fn point_never_draws_the_far_depth() {
    let mut fb = Framebuffer::new(2, 2);
    assert!(!fb.point(1, 1, FAR_DEPTH));
    assert_eq!(fb.depth_at(1, 1), Some(FAR_DEPTH));
}

#[test]
fn point_off_screen_changes_nothing() {
    let mut fb = Framebuffer::new(4, 3);
    assert!(!fb.point(-1, 0, 1));
    assert!(!fb.point(4, 0, 1));
    assert!(!fb.point(0, 3, 1));
    assert!(!fb.point(0, -1, 1));
    for y in 0..3 {
        for x in 0..4 {
            assert_eq!(fb.depth_at(x, y), Some(FAR_DEPTH));
        }
    }
}

#[test]
fn clear_resets_depth_and_keeps_background() {
    let mut fb = Framebuffer::new(3, 2);
    fb.set_background_color(Color::new(2, 2, 8, 255));
    fb.point(0, 0, 5);
    fb.point(2, 1, 7);
    fb.clear();
    assert_eq!(fb.background_color(), Color::new(2, 2, 8, 255));
    for y in 0..2 {
        for x in 0..3 {
            assert_eq!(fb.depth_at(x, y), Some(FAR_DEPTH));
        }
    }
}

#[test]
fn point_all_keeps_nearest_in_any_order() {
    let mut a = Framebuffer::new(3, 3);
    let mut b = Framebuffer::new(3, 3);
    let frags = vec![(1, 1, 30u32), (1, 1, 10), (0, 2, 5), (1, 1, 20), (9, 9, 1)];
    let drawn_a = a.point_all(&frags);
    assert_eq!(drawn_a, vec![true, true, true, false, false]);
    let mut rev = frags.clone();
    rev.reverse();
    let drawn_b = b.point_all(&rev);
    assert_eq!(drawn_b, vec![false, true, true, true, false]);
    for y in 0..3 {
        for x in 0..3 {
            assert_eq!(a.depth_at(x, y), b.depth_at(x, y));
        }
    }
    assert_eq!(a.depth_at(1, 1), Some(10));
    assert_eq!(a.depth_at(0, 2), Some(5));
}

#[test]
fn two_points_commute_on_depth() {
    let mut a = Framebuffer::new(2, 1);
    let mut b = Framebuffer::new(2, 1);
    a.point(0, 0, 8);
    a.point(0, 0, 3);
    b.point(0, 0, 3);
    b.point(0, 0, 8);
    assert_eq!(a.depth_at(0, 0), Some(3));
    assert_eq!(b.depth_at(0, 0), Some(3));
}

#[test]
fn distinct_pixels_have_distinct_indices() {
    let fb = Framebuffer::new(5, 4);
    let mut seen = Vec::new();
    for y in 0..4 {
        for x in 0..5 {
            let i = fb.index_of(x, y);
            assert_eq!(i, (y * 5 + x) as usize);
            assert!(!seen.contains(&i));
            seen.push(i);
        }
    }
}

#[test]
fn negative_dimensions_put_nothing_on_screen() {
    let mut fb = Framebuffer::new(-2, -3);
    assert!(!fb.contains(0, 0));
    assert!(!fb.contains(-1, -1));
    assert!(!fb.point(0, 0, 1));
    assert_eq!(fb.depth_at(0, 0), None);
    fb.clear();
    let fb = Framebuffer::new(-4, 0);
    assert!(!fb.contains(0, 0));
}

#[test]
fn depth_keys_follow_float_order() {
    let samples = [
        f32::NEG_INFINITY,
        -1.0e30,
        -2.5,
        -1.0e-40,
        0.0,
        1.0e-40,
        0.5,
        1.0,
        255.0,
        3.0e38,
    ];
    for a in samples {
        for b in samples {
            assert_eq!(a < b, depth_key(a.to_bits()) < depth_key(b.to_bits()), "{} {}", a, b);
        }
    }
    assert_eq!(depth_key((-0.0f32).to_bits()), depth_key(0.0f32.to_bits()));
    assert_eq!(depth_key(0.0f32.to_bits()), 0x8000_0000);
    assert_eq!(depth_key(f32::INFINITY.to_bits()), FAR_DEPTH);
    assert_eq!(depth_key(f32::NAN.to_bits()), FAR_DEPTH);
    assert_eq!(depth_key((-f32::NAN).to_bits()), FAR_DEPTH);
    assert!(depth_key(f32::MAX.to_bits()) < FAR_DEPTH);
    let mut fb = Framebuffer::new(1, 1);
    assert!(!fb.point(0, 0, depth_key(f32::INFINITY.to_bits())));
    assert!(!fb.point(0, 0, depth_key(f32::NAN.to_bits())));
    assert!(fb.point(0, 0, depth_key(1.5f32.to_bits())));
}
