//! The engine's configuration: general behaviour, appearance values, the
//! keybinding table and the workspace set, together with the documented
//! defaults written out when no configuration exists. Reading and writing
//! the configuration file is outside the engine; it hands over this already
//! parsed form.

use vstd::prelude::*;

verus! {

/// General behaviour settings.
pub struct GeneralConfig {
    pub focus_follows_mouse: bool,
    pub cursor_theme: String,
    pub cursor_size: u32,
    pub autostart: Vec<String>,
}

/// Appearance values: borders, gaps and animation timing. Rendering-only
/// values (such as a blur strength) belong to the compositing front-end,
/// not to the engine.
pub struct AppearanceConfig {
    pub border_width: u32,
    pub border_color_active: String,
    pub border_color_inactive: String,
    pub gap_inner: u32,
    pub gap_outer: u32,
    pub animation_duration_ms: u32,
    pub enable_transparency: bool,
}

/// The workspace set: how many there are and their display names.
pub struct WorkspaceConfig {
    pub count: u32,
    pub names: Vec<String>,
}

/// The whole configuration. The keybinding table is an ordered list of
/// (combo string, action string) pairs; its order decides which binding
/// wins when two entries denote the same combination.
pub struct Config {
    pub general: GeneralConfig,
    pub appearance: AppearanceConfig,
    pub keybindings: Vec<(String, String)>,
    pub workspaces: WorkspaceConfig,
}

/// The action string the first table entry with this exact combo string
/// maps to, if any.
pub open spec fn spec_lookup(pairs: Seq<(String, String)>, key: Seq<char>) -> Option<Seq<char>>
    decreases pairs.len(),
{
    if pairs.len() == 0 {
        None
    } else if pairs[0].0@ == key {
        Some(pairs[0].1@)
    } else {
        spec_lookup(pairs.drop_first(), key)
    }
}

impl Config {
    /// Looks the combo string up in the keybinding table, first entry wins.
    pub fn get_keybinding_action(&self, key: &str) -> (r: Option<&String>)
        ensures
            match r {
                Some(v) => spec_lookup(self.keybindings@, key@) == Some(v@),
                None => spec_lookup(self.keybindings@, key@) is None,
            },
    {
        let n = self.keybindings.len();
        let mut i: usize = 0;
        proof {
            assert(self.keybindings@.skip(0) =~= self.keybindings@);
        }
        while i < n
            invariant
                n == self.keybindings@.len(),
                0 <= i <= n,
                spec_lookup(self.keybindings@, key@) == spec_lookup(self.keybindings@.skip(
                    i as int), key@),
            decreases n - i,
        {
            proof {
                assert(self.keybindings@.skip(i as int)[0] == self.keybindings@[i as int]);
                assert(self.keybindings@.skip(i as int).drop_first() =~= self.keybindings@.skip(
                    i as int + 1));
            }
            let p = &self.keybindings[i];
            if crate::text::str_eq(p.0.as_str(), key) {
                return Some(&p.1);
            }
            i = i + 1;
        }
        proof {
            assert(self.keybindings@.skip(n as int) =~= Seq::<(String, String)>::empty());
        }
        None
    }
}

impl Default for Config {
    /// The documented default configuration: focus follows the mouse, three
    /// autostart commands, the stock appearance values, five named
    /// workspaces, and the twenty default keybindings in a fixed order.
    fn default() -> (r: Config)
        ensures
            r.general.focus_follows_mouse == true,
            r.general.cursor_theme@ == "Adwaita"@,
            r.general.cursor_size == 24u32,
            r.general.autostart@.len() == 3,
            r.general.autostart@[0]@ == "spinner-shell"@,
            r.general.autostart@[1]@ == "pipewire"@,
            r.general.autostart@[2]@ == "wireplumber"@,
            r.appearance.border_width == 2u32,
            r.appearance.border_color_active@ == "#88c0d0"@,
            r.appearance.border_color_inactive@ == "#4c566a"@,
            r.appearance.gap_inner == 8u32,
            r.appearance.gap_outer == 16u32,
            r.appearance.animation_duration_ms == 200u32,
            r.appearance.enable_transparency == true,
            r.workspaces.count == 5u32,
            r.workspaces.names@.len() == 5,
            r.workspaces.names@[0]@ == "Main"@,
            r.workspaces.names@[1]@ == "Web"@,
            r.workspaces.names@[2]@ == "Code"@,
            r.workspaces.names@[3]@ == "Media"@,
            r.workspaces.names@[4]@ == "Other"@,
            r.keybindings@.len() == 20,
            r.keybindings@[0].0@ == "Mod4+Return"@,
            r.keybindings@[0].1@ == "spawn:spinner-terminal"@,
            r.keybindings@[1].0@ == "Mod4+d"@,
            r.keybindings@[1].1@ == "spawn:spinner-shell --menu"@,
            r.keybindings@[2].0@ == "Mod4+q"@,
            r.keybindings@[2].1@ == "close"@,
            r.keybindings@[3].0@ == "Mod4+f"@,
            r.keybindings@[3].1@ == "fullscreen"@,
            r.keybindings@[4].0@ == "Mod4+space"@,
            r.keybindings@[4].1@ == "toggle_floating"@,
            r.keybindings@[5].0@ == "Mod4+Shift+e"@,
            r.keybindings@[5].1@ == "exit"@,
            r.keybindings@[6].0@ == "Mod4+1"@,
            r.keybindings@[6].1@ == "workspace:1"@,
            r.keybindings@[7].0@ == "Mod4+2"@,
            r.keybindings@[7].1@ == "workspace:2"@,
            r.keybindings@[8].0@ == "Mod4+3"@,
            r.keybindings@[8].1@ == "workspace:3"@,
            r.keybindings@[9].0@ == "Mod4+4"@,
            r.keybindings@[9].1@ == "workspace:4"@,
            r.keybindings@[10].0@ == "Mod4+5"@,
            r.keybindings@[10].1@ == "workspace:5"@,
            r.keybindings@[11].0@ == "Mod4+Shift+1"@,
            r.keybindings@[11].1@ == "move_to_workspace:1"@,
            r.keybindings@[12].0@ == "Mod4+Shift+2"@,
            r.keybindings@[12].1@ == "move_to_workspace:2"@,
            r.keybindings@[13].0@ == "Mod4+Shift+3"@,
            r.keybindings@[13].1@ == "move_to_workspace:3"@,
            r.keybindings@[14].0@ == "Mod4+Shift+4"@,
            r.keybindings@[14].1@ == "move_to_workspace:4"@,
            r.keybindings@[15].0@ == "Mod4+Shift+5"@,
            r.keybindings@[15].1@ == "move_to_workspace:5"@,
            r.keybindings@[16].0@ == "Mod4+Left"@,
            r.keybindings@[16].1@ == "focus:left"@,
            r.keybindings@[17].0@ == "Mod4+Right"@,
            r.keybindings@[17].1@ == "focus:right"@,
            r.keybindings@[18].0@ == "Mod4+Up"@,
            r.keybindings@[18].1@ == "focus:up"@,
            r.keybindings@[19].0@ == "Mod4+Down"@,
            r.keybindings@[19].1@ == "focus:down"@,
    {
        let mut keybindings: Vec<(String, String)> = Vec::new();
        keybindings.push(("Mod4+Return".to_owned(), "spawn:spinner-terminal".to_owned()));
        keybindings.push(("Mod4+d".to_owned(), "spawn:spinner-shell --menu".to_owned()));
        keybindings.push(("Mod4+q".to_owned(), "close".to_owned()));
        keybindings.push(("Mod4+f".to_owned(), "fullscreen".to_owned()));
        keybindings.push(("Mod4+space".to_owned(), "toggle_floating".to_owned()));
        keybindings.push(("Mod4+Shift+e".to_owned(), "exit".to_owned()));
        keybindings.push(("Mod4+1".to_owned(), "workspace:1".to_owned()));
        keybindings.push(("Mod4+2".to_owned(), "workspace:2".to_owned()));
        keybindings.push(("Mod4+3".to_owned(), "workspace:3".to_owned()));
        keybindings.push(("Mod4+4".to_owned(), "workspace:4".to_owned()));
        keybindings.push(("Mod4+5".to_owned(), "workspace:5".to_owned()));
        keybindings.push(("Mod4+Shift+1".to_owned(), "move_to_workspace:1".to_owned()));
        keybindings.push(("Mod4+Shift+2".to_owned(), "move_to_workspace:2".to_owned()));
        keybindings.push(("Mod4+Shift+3".to_owned(), "move_to_workspace:3".to_owned()));
        keybindings.push(("Mod4+Shift+4".to_owned(), "move_to_workspace:4".to_owned()));
        keybindings.push(("Mod4+Shift+5".to_owned(), "move_to_workspace:5".to_owned()));
        keybindings.push(("Mod4+Left".to_owned(), "focus:left".to_owned()));
        keybindings.push(("Mod4+Right".to_owned(), "focus:right".to_owned()));
        keybindings.push(("Mod4+Up".to_owned(), "focus:up".to_owned()));
        keybindings.push(("Mod4+Down".to_owned(), "focus:down".to_owned()));
        let mut autostart: Vec<String> = Vec::new();
        autostart.push("spinner-shell".to_owned());
        autostart.push("pipewire".to_owned());
        autostart.push("wireplumber".to_owned());
        let mut names: Vec<String> = Vec::new();
        names.push("Main".to_owned());
        names.push("Web".to_owned());
        names.push("Code".to_owned());
        names.push("Media".to_owned());
        names.push("Other".to_owned());
        Config {
            general: GeneralConfig {
                focus_follows_mouse: true,
                cursor_theme: "Adwaita".to_owned(),
                cursor_size: 24,
                autostart,
            },
            appearance: AppearanceConfig {
                border_width: 2,
                border_color_active: "#88c0d0".to_owned(),
                border_color_inactive: "#4c566a".to_owned(),
                gap_inner: 8,
                gap_outer: 16,
                animation_duration_ms: 200,
                enable_transparency: true,
            },
            keybindings,
            workspaces: WorkspaceConfig { count: 5, names },
        }
    }
}

} // verus!
