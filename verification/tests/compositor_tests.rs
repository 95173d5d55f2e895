use spinner_wm::compositor::{CompositorEffect, SpinnerCompositor};
use spinner_wm::config::Config;
use spinner_wm::input::Modifier;
use spinner_wm::window::{WindowGeometry, WindowState};

fn config_with(bindings: Vec<(&str, &str)>) -> Config {
    let mut config = Config::default();
    config.keybindings = bindings
        .into_iter()
        .map(|(k, v)| (k.to_string(), v.to_string()))
        .collect();
    config
}

#[test]
fn spawn_binding_emits_spawn_effect() {
    let config = config_with(vec![("Mod4+Return", "spawn:terminal"), ("Mod4+q", "close")]);
    let mut c = SpinnerCompositor::new(config);
    c.modifier_pressed(Modifier::Super);
    let e = c.handle_key_press("Return");
    assert_eq!(e, CompositorEffect::Spawn("terminal".to_string()));
}

#[test]
fn close_binding_removes_focused_and_reelects() {
    let config = config_with(vec![("Mod4+Return", "spawn:terminal"), ("Mod4+q", "close")]);
    let mut c = SpinnerCompositor::new(config);
    c.add_window("a".to_string(), "app.a".to_string(), 400, 300);
    c.add_window("b".to_string(), "app.b".to_string(), 400, 300);
    assert_eq!(c.window_manager().all_windows().len(), 2);
    c.modifier_pressed(Modifier::Super);
    let e = c.handle_key_press("q");
    assert_eq!(e, CompositorEffect::Nothing);
    assert_eq!(c.window_manager().all_windows().len(), 1);
    let f = c.window_manager().focused_window().expect("focus re-elected");
    assert_eq!(f.title, "a");
}

#[test]
fn unbound_key_does_nothing() {
    let config = config_with(vec![("Mod4+q", "close")]);
    let mut c = SpinnerCompositor::new(config);
    c.add_window("a".to_string(), "app.a".to_string(), 400, 300);
    let e = c.handle_key_press("q");
    assert_eq!(e, CompositorEffect::Nothing);
    assert_eq!(c.window_manager().all_windows().len(), 1);
}

#[test]
fn exit_binding_stops_the_loop() {
    let config = config_with(vec![("Mod4+Shift+e", "exit")]);
    let mut c = SpinnerCompositor::new(config);
    assert!(c.is_running());
    c.modifier_pressed(Modifier::Super);
    c.modifier_pressed(Modifier::Shift);
    let e = c.handle_key_press("e");
    assert_eq!(e, CompositorEffect::Stop);
    assert!(!c.is_running());
}

#[test]
fn workspace_switch_shows_only_its_windows() {
    let config = config_with(vec![("Mod4+2", "workspace:2"), ("Mod4+1", "workspace:1")]);
    let mut c = SpinnerCompositor::new(config);
    // W on workspace 1
    c.add_window("W".to_string(), "app.w".to_string(), 400, 300);
    // V on workspace 2
    c.modifier_pressed(Modifier::Super);
    c.handle_key_press("2");
    c.modifier_released(Modifier::Super);
    c.add_window("V".to_string(), "app.v".to_string(), 400, 300);
    // back to 1, then to 2 again: only V visible, V focused
    c.modifier_pressed(Modifier::Super);
    c.handle_key_press("1");
    let visible: Vec<String> =
        c.window_manager().visible_windows().iter().map(|w| w.title.clone()).collect();
    assert_eq!(visible, vec!["W".to_string()]);
    c.handle_key_press("2");
    let visible: Vec<String> =
        c.window_manager().visible_windows().iter().map(|w| w.title.clone()).collect();
    assert_eq!(visible, vec!["V".to_string()]);
    assert_eq!(c.window_manager().focused_window().unwrap().title, "V");
}

#[test]
fn maximize_binding_toggles_focused_window() {
    let config = config_with(vec![("Mod4+m", "maximize")]);
    let mut c = SpinnerCompositor::new(config);
    c.add_window("a".to_string(), "app.a".to_string(), 400, 300);
    c.modifier_pressed(Modifier::Super);
    c.handle_key_press("m");
    let w = c.window_manager().focused_window().unwrap();
    assert_eq!(w.state, WindowState::Maximized);
    assert_eq!(w.geometry, WindowGeometry::new(0, 48, 1920, 1032));
    c.handle_key_press("m");
    let w = c.window_manager().focused_window().unwrap();
    assert_eq!(w.state, WindowState::Normal);
    assert_eq!(w.geometry, WindowGeometry::new(760, 414, 400, 300));
}

#[test]
fn move_drag_repositions_focused_window() {
    let mut c = SpinnerCompositor::new(config_with(vec![]));
    c.add_window("a".to_string(), "app.a".to_string(), 400, 300);
    let start = c.window_manager().focused_window().unwrap().geometry;
    c.handle_mouse_motion(500, 500);
    c.modifier_pressed(Modifier::Super);
    c.handle_mouse_button(0x110, true);
    c.handle_mouse_motion(530, 480);
    let g = c.window_manager().focused_window().unwrap().geometry;
    assert_eq!((g.x, g.y), (start.x + 30, start.y - 20));
    // release ends the drag: further motion leaves the window alone
    c.handle_mouse_button(0x110, false);
    c.handle_mouse_motion(900, 900);
    let g2 = c.window_manager().focused_window().unwrap().geometry;
    assert_eq!((g2.x, g2.y), (g.x, g.y));
}

#[test]
fn resize_drag_clamps_at_floor_of_100() {
    let mut c = SpinnerCompositor::new(config_with(vec![]));
    c.add_window("a".to_string(), "app.a".to_string(), 300, 300);
    c.handle_mouse_motion(500, 500);
    c.modifier_pressed(Modifier::Super);
    c.handle_mouse_button(0x111, true);
    // drag far up-left: deltas of -400 would go negative without the floor
    c.handle_mouse_motion(100, 100);
    let g = c.window_manager().focused_window().unwrap().geometry;
    assert_eq!((g.width, g.height), (100, 100));
    // a positive delta resizes exactly
    c.handle_mouse_motion(650, 600);
    let g = c.window_manager().focused_window().unwrap().geometry;
    assert_eq!((g.width, g.height), (450, 400));
}

#[test]
fn plain_left_click_focuses_window_under_pointer() {
    let mut c = SpinnerCompositor::new(config_with(vec![]));
    c.add_window("a".to_string(), "app.a".to_string(), 400, 400);
    c.add_window("b".to_string(), "app.b".to_string(), 100, 100);
    // both are centered; click inside a's rectangle but outside b's
    c.handle_mouse_motion(800, 400);
    c.handle_mouse_button(0x110, true);
    assert_eq!(c.window_manager().focused_window().unwrap().title, "a");
}

#[test]
fn focus_follows_mouse_when_enabled() {
    let mut config = config_with(vec![]);
    config.general.focus_follows_mouse = true;
    let mut c = SpinnerCompositor::new(config);
    c.add_window("a".to_string(), "app.a".to_string(), 400, 400);
    c.add_window("b".to_string(), "app.b".to_string(), 100, 100);
    c.handle_mouse_motion(800, 400);
    assert_eq!(c.window_manager().focused_window().unwrap().title, "a");
}

#[test]
fn focus_does_not_follow_mouse_when_disabled() {
    let mut config = config_with(vec![]);
    config.general.focus_follows_mouse = false;
    let mut c = SpinnerCompositor::new(config);
    c.add_window("a".to_string(), "app.a".to_string(), 400, 400);
    c.add_window("b".to_string(), "app.b".to_string(), 100, 100);
    c.handle_mouse_motion(800, 400);
    assert_eq!(c.window_manager().focused_window().unwrap().title, "b");
}

#[test]
fn centering_formula_matches_screen_and_panel() {
    let mut c = SpinnerCompositor::new(config_with(vec![]));
    c.add_window("a".to_string(), "app.a".to_string(), 800, 600);
    let g = c.window_manager().focused_window().unwrap().geometry;
    assert_eq!(g.x, 560);
    assert_eq!(g.y, 264);
    assert_eq!((g.width, g.height), (800, 600));
}

#[test]
fn move_to_workspace_binding_reassigns_focused() {
    let config = config_with(vec![("Mod4+Shift+3", "move_to_workspace:3")]);
    let mut c = SpinnerCompositor::new(config);
    c.add_window("a".to_string(), "app.a".to_string(), 400, 300);
    c.modifier_pressed(Modifier::Super);
    c.modifier_pressed(Modifier::Shift);
    c.handle_key_press("3");
    assert!(c.window_manager().visible_windows().is_empty());
    let wm = c.window_manager_mut();
    wm.switch_workspace(3);
    assert_eq!(wm.visible_windows().len(), 1);
}

#[test]
fn minimize_binding_hides_focused() {
    let config = config_with(vec![("Mod4+n", "minimize")]);
    let mut c = SpinnerCompositor::new(config);
    c.add_window("a".to_string(), "app.a".to_string(), 400, 300);
    c.modifier_pressed(Modifier::Super);
    c.handle_key_press("n");
    assert!(c.window_manager().visible_windows().is_empty());
    assert_eq!(c.window_manager().all_windows().len(), 1);
}

#[test]
fn fullscreen_binding_toggles_decorations() {
    let config = config_with(vec![("Mod4+f", "fullscreen")]);
    let mut c = SpinnerCompositor::new(config);
    c.add_window("a".to_string(), "app.a".to_string(), 400, 300);
    c.modifier_pressed(Modifier::Super);
    c.handle_key_press("f");
    let w = c.window_manager().focused_window().unwrap();
    assert_eq!(w.state, WindowState::Fullscreen);
    assert_eq!(w.geometry, WindowGeometry::new(0, 0, 1920, 1080));
    assert!(!w.decorations);
    c.handle_key_press("f");
    let w = c.window_manager().focused_window().unwrap();
    assert_eq!(w.state, WindowState::Normal);
    assert!(w.decorations);
}
