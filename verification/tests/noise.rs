use solar_renderer::noise::{clamp_octaves, gradient_terms, simplex_corners, Axis, GradientTerms};

#[test]
fn clamp_octaves_limits_to_one_through_four() {
    assert_eq!(clamp_octaves(-3), 1);
    assert_eq!(clamp_octaves(0), 1);
    assert_eq!(clamp_octaves(1), 1);
    assert_eq!(clamp_octaves(3), 3);
    assert_eq!(clamp_octaves(4), 4);
    assert_eq!(clamp_octaves(i32::MAX), 4);
    assert_eq!(clamp_octaves(clamp_octaves(9)), clamp_octaves(9));
}

fn terms(u: Axis, un: bool, v: Axis, vn: bool) -> GradientTerms {
    GradientTerms { u, u_negated: un, v, v_negated: vn }
}

#[test]
fn gradient_table() {
    assert_eq!(gradient_terms(0), terms(Axis::X, false, Axis::Y, false));
    assert_eq!(gradient_terms(3), terms(Axis::X, true, Axis::Y, true));
    assert_eq!(gradient_terms(5), terms(Axis::X, true, Axis::Z, false));
    assert_eq!(gradient_terms(10), terms(Axis::Y, false, Axis::Z, true));
    assert_eq!(gradient_terms(12), terms(Axis::Y, false, Axis::X, false));
    assert_eq!(gradient_terms(13), terms(Axis::Y, true, Axis::Z, false));
    assert_eq!(gradient_terms(14), terms(Axis::Y, false, Axis::X, true));
    assert_eq!(gradient_terms(15), terms(Axis::Y, true, Axis::Z, true));
}

#[test]
fn gradient_uses_low_four_bits_only() {
    assert_eq!(gradient_terms(255), gradient_terms(15));
    assert_eq!(gradient_terms(16 + 6), gradient_terms(6));
    assert_eq!(gradient_terms(-1), gradient_terms(15));
    for h in -40..40 {
        let g = gradient_terms(h);
        assert_ne!(g.u, g.v);
    }
}

#[test]
fn simplex_corners_for_each_ordering() {
    let order = |a: i32, b: i32, c: i32| simplex_corners(a >= b, b >= c, a >= c);
    assert_eq!(order(3, 2, 1), ((1, 0, 0), (1, 1, 0)));
    assert_eq!(order(3, 1, 2), ((1, 0, 0), (1, 0, 1)));
    assert_eq!(order(2, 1, 3), ((0, 0, 1), (1, 0, 1)));
    assert_eq!(order(1, 2, 3), ((0, 0, 1), (0, 1, 1)));
    assert_eq!(order(1, 3, 2), ((0, 1, 0), (0, 1, 1)));
    assert_eq!(order(2, 3, 1), ((0, 1, 0), (1, 1, 0)));
    assert_eq!(order(1, 1, 1), ((1, 0, 0), (1, 1, 0)));
}
