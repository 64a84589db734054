use wgpu_app::surface::{choose_surface_format, SurfaceState};

#[test]
fn a_new_surface_is_not_configured() {
    let s = SurfaceState::new(800, 600);
    assert_eq!(s, SurfaceState { width: 800, height: 600, configured: false });
    assert!(!s.can_render());
}

#[test]
fn resize_configures_with_the_asked_size() {
    let mut s = SurfaceState::new(0, 0);
    s.resize(1024, 768);
    assert_eq!(s, SurfaceState { width: 1024, height: 768, configured: true });
    assert!(s.can_render());
}

#[test]
fn resize_to_zero_keeps_one_pixel() {
    let mut s = SurfaceState::new(10, 10);
    s.resize(0, 0);
    assert_eq!(s, SurfaceState { width: 1, height: 1, configured: true });
    s.resize(0, 5);
    assert_eq!(s, SurfaceState { width: 1, height: 5, configured: true });
}

#[test]
fn the_last_resize_wins_and_repeating_it_changes_nothing() {
    let mut s = SurfaceState::new(3, 3);
    s.resize(100, 200);
    s.resize(40, 50);
    let after = s;
    s.resize(40, 50);
    assert_eq!(s, after);
    assert_eq!(s, SurfaceState { width: 40, height: 50, configured: true });
}

#[test]
fn format_choice_prefers_the_first_srgb() {
    assert_eq!(choose_surface_format(&[false, true, true]), 1);
    assert_eq!(choose_surface_format(&[true, false]), 0);
    assert_eq!(choose_surface_format(&[false, false, false]), 0);
    assert_eq!(choose_surface_format(&[false]), 0);
}
