use solar_renderer::input::{camera_moves, handle_toggle_input, warp_commands, CameraKeys, CameraMove, WarpCommand};
use solar_renderer::orbit_renderer::{marker_footprint, MarkerShade, OrbitRenderer};
use solar_renderer::skybox::{star_footprint, StarShade};

#[test]
fn star_footprint_by_size() {
    assert_eq!(star_footprint(5, 7, 0), vec![(5, 7, StarShade::Core)]);
    let medium = star_footprint(5, 7, 1);
    assert_eq!(
        medium,
        vec![
            (5, 7, StarShade::Core),
            (6, 7, StarShade::Dim),
            (4, 7, StarShade::Dim),
            (5, 8, StarShade::Dim),
            (5, 6, StarShade::Dim),
        ]
    );
    let big = star_footprint(0, 0, 2);
    assert_eq!(big.len(), 7);
    assert_eq!(big[5], (1, 1, StarShade::Faint));
    assert_eq!(big[6], (-1, -1, StarShade::Faint));
    assert_eq!(star_footprint(0, 0, 200).len(), 7);
    assert_eq!(star_footprint(i32::MAX, i32::MIN, 0), vec![(i32::MAX, i32::MIN, StarShade::Core)]);
}

#[test]
fn orbit_dots_every_other_segment() {
    let r = OrbitRenderer::new(64);
    assert_eq!(r.segments(), 64);
    let dots = r.dot_segments();
    assert_eq!(dots.len(), 32);
    assert_eq!(dots[0], 0);
    assert_eq!(dots[31], 62);
    assert_eq!(OrbitRenderer::new(5).dot_segments(), vec![0, 2, 4]);
    assert!(OrbitRenderer::new(0).dot_segments().is_empty());
}

#[test]
fn orbit_marker_is_a_short_horizontal_bar() {
    assert_eq!(
        marker_footprint(10, 20),
        vec![(10, 20, MarkerShade::Center), (11, 20, MarkerShade::Side), (9, 20, MarkerShade::Side)]
    );
}

#[test]
fn warp_keys_in_order() {
    let none = vec![false; 7];
    assert!(warp_commands(false, &none).is_empty());
    let mut digits = vec![false; 7];
    digits[0] = true;
    digits[6] = true;
    assert_eq!(
        warp_commands(true, &digits),
        vec![WarpCommand::Next, WarpCommand::To(2), WarpCommand::To(8)]
    );
}

#[test]
fn toggles_flip_only_when_pressed() {
    let mut orbits = true;
    let mut ship = true;
    handle_toggle_input(&mut orbits, &mut ship, true, false);
    assert!(!orbits);
    assert!(ship);
    handle_toggle_input(&mut orbits, &mut ship, true, true);
    assert!(orbits);
    assert!(!ship);
}

fn no_keys() -> CameraKeys {
    CameraKeys {
        a: false, d: false, w: false, s: false, up: false, down: false, q: false,
        left: false, e: false, right: false, r: false, f: false, z: false, x: false,
    }
}

#[test]
fn camera_moves_in_fixed_order() {
    assert!(camera_moves(no_keys()).is_empty());
    let mut k = no_keys();
    k.x = true;
    k.a = true;
    k.left = true;
    k.q = true;
    k.down = true;
    assert_eq!(
        camera_moves(k),
        vec![CameraMove::YawLeft, CameraMove::ZoomOut, CameraMove::PanLeft, CameraMove::Back]
    );
    let mut k = no_keys();
    k.right = true;
    k.r = true;
    k.f = true;
    k.z = true;
    k.w = true;
    k.s = true;
    k.d = true;
    k.up = true;
    assert_eq!(
        camera_moves(k),
        vec![
            CameraMove::YawRight,
            CameraMove::PitchUp,
            CameraMove::PitchDown,
            CameraMove::ZoomIn,
            CameraMove::PanRight,
            CameraMove::Raise,
            CameraMove::Lower,
            CameraMove::Forward,
        ]
    );
}
