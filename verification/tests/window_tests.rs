use spinner_wm::window::{ManagedWindow, WindowGeometry, WindowId, WindowIdGenerator, WindowState};

fn window(raw_id: u32, x: i32, y: i32, w: u32, h: u32) -> ManagedWindow {
    ManagedWindow::new(WindowId::new(raw_id), "term".to_string(), "org.term".to_string(), x, y, w, h)
}

#[test]
fn id_generator_is_monotonic() {
    let mut gen = WindowIdGenerator::new();
    let a = gen.fresh();
    let b = gen.fresh();
    let c = gen.fresh();
    assert_eq!(a, WindowId::new(1));
    assert_eq!(b, WindowId::new(2));
    assert_eq!(c, WindowId::new(3));
    assert_ne!(a, b);
}

#[test]
fn new_window_defaults() {
    let w = window(7, 10, 20, 300, 200);
    assert_eq!(w.id, WindowId::new(7));
    assert_eq!(w.state, WindowState::Normal);
    assert!(w.is_floating);
    assert_eq!(w.workspace, 1);
    assert!(!w.focused);
    assert!(!w.urgent);
    assert!(w.decorations);
    assert!(w.saved_geometry.is_none());
    assert_eq!(w.geometry, WindowGeometry::new(10, 20, 300, 200));
}

#[test]
fn contains_point_edges() {
    let g = WindowGeometry::new(100, 50, 200, 100);
    assert!(g.contains_point(100, 50));
    assert!(g.contains_point(299, 149));
    assert!(!g.contains_point(300, 149));
    assert!(!g.contains_point(299, 150));
    assert!(!g.contains_point(99, 50));
}

#[test]
fn maximize_saves_and_unmaximize_restores() {
    let mut w = window(1, 15, 25, 640, 480);
    w.maximize(1920, 1080, 48);
    assert_eq!(w.state, WindowState::Maximized);
    assert_eq!(w.geometry, WindowGeometry::new(0, 48, 1920, 1032));
    assert_eq!(w.saved_geometry, Some(WindowGeometry::new(15, 25, 640, 480)));
    w.unmaximize();
    assert_eq!(w.state, WindowState::Normal);
    assert_eq!(w.geometry, WindowGeometry::new(15, 25, 640, 480));
    assert!(w.saved_geometry.is_none());
}

#[test]
fn maximize_twice_keeps_first_saved_geometry() {
    let mut w = window(1, 15, 25, 640, 480);
    w.maximize(1920, 1080, 48);
    let saved = w.saved_geometry;
    w.maximize(1920, 1080, 48);
    assert_eq!(w.saved_geometry, saved);
}

#[test]
fn fullscreen_from_maximized_flattens_saved_geometry() {
    let mut w = window(1, 15, 25, 640, 480);
    w.maximize(1920, 1080, 48);
    w.fullscreen(1920, 1080);
    // the single save slot now holds the maximized rectangle
    assert_eq!(w.saved_geometry, Some(WindowGeometry::new(0, 48, 1920, 1032)));
    w.unfullscreen();
    // the pre-maximize rectangle is gone: we land on the maximized one
    assert_eq!(w.geometry, WindowGeometry::new(0, 48, 1920, 1032));
    assert_eq!(w.state, WindowState::Normal);
}

#[test]
fn unmaximize_without_maximize_is_noop() {
    let mut w = window(1, 15, 25, 640, 480);
    w.unmaximize();
    assert_eq!(w.state, WindowState::Normal);
    assert_eq!(w.geometry, WindowGeometry::new(15, 25, 640, 480));
}

#[test]
fn toggle_maximize_round_trip() {
    let mut w = window(1, 5, 6, 700, 500);
    w.toggle_maximize(1920, 1080, 48);
    assert_eq!(w.state, WindowState::Maximized);
    w.toggle_maximize(1920, 1080, 48);
    assert_eq!(w.state, WindowState::Normal);
    assert_eq!(w.geometry, WindowGeometry::new(5, 6, 700, 500));
}

#[test]
fn fullscreen_round_trip_restores_decorations() {
    let mut w = window(1, 5, 6, 700, 500);
    w.fullscreen(1920, 1080);
    assert_eq!(w.state, WindowState::Fullscreen);
    assert_eq!(w.geometry, WindowGeometry::new(0, 0, 1920, 1080));
    assert!(!w.decorations);
    w.unfullscreen();
    assert_eq!(w.state, WindowState::Normal);
    assert_eq!(w.geometry, WindowGeometry::new(5, 6, 700, 500));
    assert!(w.decorations);
}

#[test]
fn toggle_fullscreen_dispatches() {
    let mut w = window(1, 5, 6, 700, 500);
    w.toggle_fullscreen(1920, 1080);
    assert_eq!(w.state, WindowState::Fullscreen);
    w.toggle_fullscreen(1920, 1080);
    assert_eq!(w.state, WindowState::Normal);
}

#[test]
fn minimize_keeps_geometry_and_restore_returns_to_normal() {
    let mut w = window(1, 5, 6, 700, 500);
    w.minimize();
    assert_eq!(w.state, WindowState::Minimized);
    assert_eq!(w.geometry, WindowGeometry::new(5, 6, 700, 500));
    assert!(!w.is_visible());
    w.restore();
    assert_eq!(w.state, WindowState::Normal);
    assert!(w.is_visible());
}

#[test]
fn restore_is_noop_unless_minimized() {
    let mut w = window(1, 5, 6, 700, 500);
    w.fullscreen(1920, 1080);
    w.restore();
    assert_eq!(w.state, WindowState::Fullscreen);
}

#[test]
fn toggle_floating_flips() {
    let mut w = window(1, 5, 6, 700, 500);
    assert!(w.is_floating);
    w.toggle_floating();
    assert!(!w.is_floating);
    w.toggle_floating();
    assert!(w.is_floating);
}

#[test]
fn set_position_and_size() {
    let mut w = window(1, 5, 6, 700, 500);
    w.set_position(-30, 40);
    w.set_size(120, 130);
    assert_eq!(w.geometry, WindowGeometry::new(-30, 40, 120, 130));
}
