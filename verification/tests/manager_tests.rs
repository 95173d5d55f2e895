use spinner_wm::manager::WindowManager;
use spinner_wm::window::{ManagedWindow, WindowGeometry, WindowId, WindowState};

fn window(raw_id: u32, w: u32, h: u32) -> ManagedWindow {
    ManagedWindow::new(WindowId::new(raw_id), format!("w{}", raw_id), "app".to_string(), 0, 0, w, h)
}

fn ids(wm: &WindowManager) -> Vec<u32> {
    wm.visible_windows().iter().map(|w| w.id.0).collect()
}

#[test]
fn add_window_centers_and_focuses() {
    let mut wm = WindowManager::new(1920, 1080, 48);
    wm.add_window(window(1, 800, 600));
    let w = wm.focused_window().expect("window focused after add");
    assert_eq!(w.geometry, WindowGeometry::new(560, 264, 800, 600));
    assert!(w.focused);
    assert_eq!(w.workspace, 1);
}

#[test]
fn focus_moves_window_to_end() {
    let mut wm = WindowManager::new(1920, 1080, 48);
    wm.add_window(window(1, 100, 100));
    wm.add_window(window(2, 100, 100));
    wm.add_window(window(3, 100, 100));
    assert_eq!(ids(&wm), vec![1, 2, 3]);
    wm.focus_window(WindowId::new(2));
    assert_eq!(ids(&wm), vec![1, 3, 2]);
    let f = wm.focused_window().unwrap();
    assert_eq!(f.id, WindowId::new(2));
}

#[test]
fn focus_window_twice_equals_once() {
    let mut wm = WindowManager::new(1920, 1080, 48);
    wm.add_window(window(1, 100, 100));
    wm.add_window(window(2, 100, 100));
    wm.add_window(window(3, 100, 100));
    wm.focus_window(WindowId::new(2));
    let once = ids(&wm);
    let focused_once = wm.focused_window().unwrap().id;
    wm.focus_window(WindowId::new(2));
    assert_eq!(ids(&wm), once);
    assert_eq!(wm.focused_window().unwrap().id, focused_once);
}

#[test]
fn focus_unknown_id_is_noop() {
    let mut wm = WindowManager::new(1920, 1080, 48);
    wm.add_window(window(1, 100, 100));
    wm.focus_window(WindowId::new(99));
    assert_eq!(wm.focused_window().unwrap().id, WindowId::new(1));
    assert_eq!(ids(&wm), vec![1]);
}

#[test]
fn remove_focused_elects_last_visible() {
    let mut wm = WindowManager::new(1920, 1080, 48);
    wm.add_window(window(1, 100, 100));
    wm.add_window(window(2, 100, 100));
    wm.add_window(window(3, 100, 100));
    // order is [1, 2, 3] with 3 focused; removing 3 must elect 2
    wm.remove_window(WindowId::new(3));
    assert_eq!(wm.focused_window().unwrap().id, WindowId::new(2));
    let visible = wm.visible_windows();
    assert_eq!(visible.last().unwrap().id, WindowId::new(2));
}

#[test]
fn remove_last_window_clears_focus() {
    let mut wm = WindowManager::new(1920, 1080, 48);
    wm.add_window(window(1, 100, 100));
    wm.remove_window(WindowId::new(1));
    assert!(wm.focused_window().is_none());
    assert!(wm.visible_windows().is_empty());
}

#[test]
fn remove_unfocused_keeps_focus() {
    let mut wm = WindowManager::new(1920, 1080, 48);
    wm.add_window(window(1, 100, 100));
    wm.add_window(window(2, 100, 100));
    wm.remove_window(WindowId::new(1));
    assert_eq!(wm.focused_window().unwrap().id, WindowId::new(2));
}

#[test]
fn focused_id_always_present_across_operations() {
    let mut wm = WindowManager::new(1920, 1080, 48);
    let check = |wm: &WindowManager| {
        if let Some(f) = wm.focused_window() {
            let id = f.id;
            assert!(wm.get_window(id).is_some());
        }
    };
    wm.add_window(window(1, 100, 100));
    check(&wm);
    wm.add_window(window(2, 100, 100));
    check(&wm);
    wm.remove_window(WindowId::new(2));
    check(&wm);
    wm.add_window(window(3, 100, 100));
    check(&wm);
    wm.remove_window(WindowId::new(1));
    check(&wm);
    wm.remove_window(WindowId::new(3));
    check(&wm);
    assert!(wm.focused_window().is_none());
}

#[test]
fn window_at_point_prefers_most_recently_focused() {
    let mut wm = WindowManager::new(1920, 1080, 48);
    wm.add_window(window(1, 400, 400));
    wm.add_window(window(2, 400, 400));
    // both centered at the same spot and overlapping; 2 was focused later
    let p = wm.window_at_point(960, 540).expect("a window under the point");
    assert_eq!(p.id, WindowId::new(2));
    // focus 1 again: now 1 is topmost
    wm.focus_window(WindowId::new(1));
    let p = wm.window_at_point(960, 540).expect("a window under the point");
    assert_eq!(p.id, WindowId::new(1));
}

#[test]
fn window_at_point_skips_minimized_and_misses() {
    let mut wm = WindowManager::new(1920, 1080, 48);
    wm.add_window(window(1, 400, 400));
    assert!(wm.window_at_point(0, 0).is_none());
    let w = wm.focused_window_mut();
    w.minimize();
    assert!(wm.window_at_point(960, 540).is_none());
}

#[test]
fn switch_workspace_reelects_focus() {
    let mut wm = WindowManager::new(1920, 1080, 48);
    wm.add_window(window(1, 100, 100));
    wm.switch_workspace(2);
    assert_eq!(wm.current_workspace(), 2);
    assert!(wm.focused_window().is_none());
    assert!(wm.visible_windows().is_empty());
    wm.add_window(window(2, 100, 100));
    wm.switch_workspace(1);
    assert_eq!(wm.focused_window().unwrap().id, WindowId::new(1));
    assert_eq!(ids(&wm), vec![1]);
}

#[test]
fn move_window_to_workspace_changes_tag_only() {
    let mut wm = WindowManager::new(1920, 1080, 48);
    wm.add_window(window(1, 100, 100));
    wm.add_window(window(2, 100, 100));
    wm.move_window_to_workspace(WindowId::new(1), 4);
    let w = wm.get_window(WindowId::new(1)).unwrap();
    assert_eq!(w.workspace, 4);
    // focus untouched
    assert_eq!(wm.focused_window().unwrap().id, WindowId::new(2));
    // no longer visible on workspace 1
    assert_eq!(ids(&wm), vec![2]);
}

#[test]
fn get_window_mut_updates_in_place() {
    let mut wm = WindowManager::new(1920, 1080, 48);
    wm.add_window(window(1, 100, 100));
    assert!(wm.has_window(WindowId::new(1)));
    let w = wm.get_window_mut(WindowId::new(1));
    w.set_position(11, 22);
    let g = wm.get_window(WindowId::new(1)).unwrap().geometry;
    assert_eq!((g.x, g.y), (11, 22));
}

#[test]
fn update_screen_size_does_not_move_windows() {
    let mut wm = WindowManager::new(1920, 1080, 48);
    wm.add_window(window(1, 800, 600));
    let before = wm.get_window(WindowId::new(1)).unwrap().geometry;
    wm.update_screen_size(1280, 1024);
    let after = wm.get_window(WindowId::new(1)).unwrap().geometry;
    assert_eq!(before, after);
}

#[test]
fn minimized_windows_are_not_visible() {
    let mut wm = WindowManager::new(1920, 1080, 48);
    wm.add_window(window(1, 100, 100));
    wm.add_window(window(2, 100, 100));
    let w = wm.get_window_mut(WindowId::new(1));
    w.minimize();
    assert_eq!(ids(&wm), vec![2]);
    assert_eq!(wm.all_windows().len(), 2);
    assert_eq!(wm.get_window(WindowId::new(1)).unwrap().state, WindowState::Minimized);
}
