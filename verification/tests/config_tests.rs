use spinner_wm::config::Config;

#[test]
fn default_general_settings() {
    let c = Config::default();
    assert!(c.general.focus_follows_mouse);
    assert_eq!(c.general.cursor_theme, "Adwaita");
    assert_eq!(c.general.cursor_size, 24);
    assert_eq!(
        c.general.autostart,
        vec!["spinner-shell".to_string(), "pipewire".to_string(), "wireplumber".to_string()]
    );
}

#[test]
fn default_appearance_settings() {
    let c = Config::default();
    assert_eq!(c.appearance.border_width, 2);
    assert_eq!(c.appearance.border_color_active, "#88c0d0");
    assert_eq!(c.appearance.border_color_inactive, "#4c566a");
    assert_eq!(c.appearance.gap_inner, 8);
    assert_eq!(c.appearance.gap_outer, 16);
    assert_eq!(c.appearance.animation_duration_ms, 200);
    assert!(c.appearance.enable_transparency);
}

#[test]
fn default_workspaces() {
    let c = Config::default();
    assert_eq!(c.workspaces.count, 5);
    let names: Vec<String> =
        ["Main", "Web", "Code", "Media", "Other"].iter().map(|s| s.to_string()).collect();
    assert_eq!(c.workspaces.names, names);
}

#[test]
fn default_keybindings_table() {
    let c = Config::default();
    assert_eq!(c.keybindings.len(), 20);
    assert_eq!(
        c.get_keybinding_action("Mod4+Return"),
        Some(&"spawn:spinner-terminal".to_string())
    );
    assert_eq!(c.get_keybinding_action("Mod4+q"), Some(&"close".to_string()));
    assert_eq!(c.get_keybinding_action("Mod4+5"), Some(&"workspace:5".to_string()));
    assert_eq!(
        c.get_keybinding_action("Mod4+Shift+1"),
        Some(&"move_to_workspace:1".to_string())
    );
    assert_eq!(c.get_keybinding_action("Mod4+Down"), Some(&"focus:down".to_string()));
    assert_eq!(c.get_keybinding_action("Mod4+zz"), None);
}
