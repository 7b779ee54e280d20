use solar_renderer::warp::{WarpState, WarpSystem};

fn system(n: usize) -> WarpSystem<u32, u32> {
    let mut w: WarpSystem<u32, u32> = WarpSystem::new();
    for i in 0..n {
        w.add_target(&format!("Object {}", i), 10 * i as u32);
    }
    w
}

#[test]
fn new_system_is_idle_and_empty() {
    let w: WarpSystem<u32, u32> = WarpSystem::new();
    assert!(!w.is_warping());
    assert!(w.warp_targets.is_empty());
    assert_eq!(w.current_target, 0);
    assert_eq!(w.current_target_name(), None);
}

#[test]
fn add_target_appends_name_and_payload() {
    let w = system(3);
    assert_eq!(w.warp_targets.len(), 3);
    assert_eq!(w.warp_targets[2].0, "Object 2");
    assert_eq!(w.warp_targets[2].1, 20);
    assert_eq!(w.current_target_name(), Some("Object 0"));
}

#[test]
fn warp_to_starts_transition_from_target_payload() {
    let mut w = system(3);
    w.warp_to(2, |p: &u32| *p + 1);
    assert!(w.is_warping());
    assert_eq!(w.current_target, 2);
    assert!(matches!(w.state, WarpState::Warping(21)));
    assert_eq!(w.current_target_name(), Some("Object 2"));
}

#[test]
fn warp_to_out_of_range_is_ignored() {
    let mut w = system(3);
    w.warp_to(3, |p: &u32| *p);
    assert!(!w.is_warping());
    assert_eq!(w.current_target, 0);
}

#[test]
fn warp_next_wraps_around() {
    let mut w = system(3);
    let mut seen = Vec::new();
    for _ in 0..4 {
        w.warp_next(|p: &u32| *p);
        seen.push(w.current_target);
    }
    assert_eq!(seen, vec![1, 2, 0, 1]);
    assert!(matches!(w.state, WarpState::Warping(10)));
}

#[test]
fn warp_prev_wraps_around_and_undoes_next() {
    let mut w = system(3);
    w.warp_prev(|p: &u32| *p);
    assert_eq!(w.current_target, 2);
    w.warp_next(|p: &u32| *p);
    assert_eq!(w.current_target, 0);
    w.warp_next(|p: &u32| *p);
    w.warp_prev(|p: &u32| *p);
    assert_eq!(w.current_target, 0);
}

#[test]
fn warp_with_no_targets_does_nothing() {
    let mut w = system(0);
    w.warp_next(|p: &u32| *p);
    w.warp_prev(|p: &u32| *p);
    assert!(!w.is_warping());
    assert_eq!(w.current_target, 0);
}

#[test]
fn stale_current_target_has_no_name() {
    let mut w = system(3);
    w.warp_to(2, |p: &u32| *p);
    w.warp_targets.clear();
    assert_eq!(w.current_target_name(), None);
    w.add_target("Only", 7);
    w.warp_prev(|p: &u32| *p);
    assert_eq!(w.current_target, 2);
    w.warp_next(|p: &u32| *p);
    assert_eq!(w.current_target, 0);
}

#[test]
fn full_cycle_of_next_returns_to_start() {
    let mut w = system(5);
    w.warp_to(3, |p: &u32| *p);
    for _ in 0..5 {
        w.warp_next(|p: &u32| *p);
    }
    assert_eq!(w.current_target, 3);
}
