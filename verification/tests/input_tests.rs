use spinner_wm::config::Config;
use spinner_wm::input::{
    Action, ActionParseError, Direction, InputHandler, KeyCombination, Modifier, MouseState,
    DragOperation,
};

fn handler_with(bindings: Vec<(&str, &str)>) -> InputHandler {
    let mut config = Config::default();
    config.keybindings = bindings
        .into_iter()
        .map(|(k, v)| (k.to_string(), v.to_string()))
        .collect();
    InputHandler::new(&config)
}

#[test]
fn combo_parsing_recognizes_modifier_synonyms() {
    let c = KeyCombination::from_string("Mod4+Return").unwrap();
    assert_eq!(c.modifiers, vec![Modifier::Super]);
    assert_eq!(c.key, "Return");
    let c = KeyCombination::from_string("Ctrl+Alt+t").unwrap();
    assert_eq!(c.modifiers, vec![Modifier::Control, Modifier::Alt]);
    assert_eq!(c.key, "t");
    let c = KeyCombination::from_string("Control+Mod1+t").unwrap();
    assert_eq!(c.modifiers, vec![Modifier::Control, Modifier::Alt]);
}

#[test]
fn combo_parsing_drops_unknown_modifiers() {
    let c = KeyCombination::from_string("Hyper+x").unwrap();
    assert!(c.modifiers.is_empty());
    assert_eq!(c.key, "x");
}

#[test]
fn combo_parsing_bare_key_and_empty() {
    let c = KeyCombination::from_string("F11").unwrap();
    assert!(c.modifiers.is_empty());
    assert_eq!(c.key, "F11");
    let c = KeyCombination::from_string("").unwrap();
    assert!(c.modifiers.is_empty());
    assert_eq!(c.key, "");
}

#[test]
fn matching_is_exact_set() {
    let c = KeyCombination::new(vec![Modifier::Super], "q".to_string());
    assert!(c.matches(&[Modifier::Super], "q"));
    // extra held modifier prevents the match
    assert!(!c.matches(&[Modifier::Super, Modifier::Shift], "q"));
    // missing modifier prevents the match
    assert!(!c.matches(&[], "q"));
    // key is compared case-sensitively
    assert!(!c.matches(&[Modifier::Super], "Q"));
    // order of held modifiers does not matter
    let c2 = KeyCombination::new(vec![Modifier::Super, Modifier::Shift], "e".to_string());
    assert!(c2.matches(&[Modifier::Shift, Modifier::Super], "e"));
}

#[test]
fn direction_parsing_ignores_ascii_case() {
    assert_eq!(Direction::from_string("left"), Some(Direction::Left));
    assert_eq!(Direction::from_string("LEFT"), Some(Direction::Left));
    assert_eq!(Direction::from_string("Right"), Some(Direction::Right));
    assert_eq!(Direction::from_string("uP"), Some(Direction::Up));
    assert_eq!(Direction::from_string("down"), Some(Direction::Down));
    assert_eq!(Direction::from_string("diagonal"), None);
}

#[test]
fn action_parsing_prefixes() {
    assert_eq!(
        InputHandler::parse_action("spawn:kitty --single-instance"),
        Ok(Action::Spawn("kitty --single-instance".to_string()))
    );
    assert_eq!(InputHandler::parse_action("workspace:3"), Ok(Action::Workspace(3)));
    assert_eq!(
        InputHandler::parse_action("move_to_workspace:5"),
        Ok(Action::MoveToWorkspace(5))
    );
    assert_eq!(InputHandler::parse_action("focus:left"), Ok(Action::Focus(Direction::Left)));
    assert_eq!(InputHandler::parse_action("move:down"), Ok(Action::Move(Direction::Down)));
}

#[test]
fn action_parsing_exact_words() {
    assert_eq!(InputHandler::parse_action("close"), Ok(Action::Close));
    assert_eq!(InputHandler::parse_action("fullscreen"), Ok(Action::Fullscreen));
    assert_eq!(InputHandler::parse_action("toggle_floating"), Ok(Action::ToggleFloating));
    assert_eq!(InputHandler::parse_action("maximize"), Ok(Action::Maximize));
    assert_eq!(InputHandler::parse_action("minimize"), Ok(Action::Minimize));
    assert_eq!(InputHandler::parse_action("exit"), Ok(Action::Exit));
}

#[test]
fn action_parsing_unrecognized_is_noop() {
    assert_eq!(InputHandler::parse_action("warp_to_moon"), Ok(Action::NoOp));
    assert_eq!(InputHandler::parse_action(""), Ok(Action::NoOp));
    assert_eq!(InputHandler::parse_action("focus:diagonal"), Ok(Action::NoOp));
}

#[test]
fn action_parsing_bad_workspace_number_is_an_error() {
    assert_eq!(
        InputHandler::parse_action("workspace:abc"),
        Err(ActionParseError::InvalidNumber)
    );
    assert_eq!(
        InputHandler::parse_action("workspace:"),
        Err(ActionParseError::InvalidNumber)
    );
    assert_eq!(
        InputHandler::parse_action("move_to_workspace:99999999999"),
        Err(ActionParseError::InvalidNumber)
    );
}

#[test]
fn malformed_numeric_binding_is_dropped_entirely() {
    let h = handler_with(vec![("Mod4+1", "workspace:abc")]);
    let mut h = h;
    h.modifier_pressed(Modifier::Super);
    assert!(h.key_pressed("1").is_none());
}

#[test]
fn key_press_resolves_first_matching_binding() {
    let mut h = handler_with(vec![("Mod4+Return", "spawn:terminal"), ("Mod4+q", "close")]);
    h.modifier_pressed(Modifier::Super);
    assert_eq!(h.key_pressed("Return"), Some(Action::Spawn("terminal".to_string())));
    assert_eq!(h.key_pressed("q"), Some(Action::Close));
    assert!(h.key_pressed("z").is_none());
}

#[test]
fn exact_set_matching_blocks_superset_of_modifiers() {
    let mut h = handler_with(vec![("Mod4+q", "close")]);
    h.modifier_pressed(Modifier::Super);
    h.modifier_pressed(Modifier::Shift);
    assert!(h.key_pressed("q").is_none());
    h.modifier_released(Modifier::Shift);
    assert_eq!(h.key_pressed("q"), Some(Action::Close));
}

#[test]
fn duplicate_binding_is_rejected_at_load_first_wins() {
    // same combination written two ways: the earlier entry wins
    let mut h = handler_with(vec![("Mod4+q", "close"), ("Super+q", "exit")]);
    h.modifier_pressed(Modifier::Super);
    assert_eq!(h.key_pressed("q"), Some(Action::Close));
}

#[test]
fn modifier_tracking_has_no_duplicates() {
    let mut h = handler_with(vec![]);
    h.modifier_pressed(Modifier::Shift);
    h.modifier_pressed(Modifier::Shift);
    assert_eq!(h.current_modifiers(), &[Modifier::Shift]);
    h.modifier_pressed(Modifier::Alt);
    assert_eq!(h.current_modifiers(), &[Modifier::Shift, Modifier::Alt]);
    h.modifier_released(Modifier::Shift);
    assert_eq!(h.current_modifiers(), &[Modifier::Alt]);
    h.modifier_released(Modifier::Shift);
    assert_eq!(h.current_modifiers(), &[Modifier::Alt]);
}

#[test]
fn mouse_state_defaults_and_updates() {
    let mut m = MouseState::default();
    assert_eq!(m.position(), (0, 0));
    assert!(!m.any_button_pressed());
    m.update_position(100, -5);
    assert_eq!(m.position(), (100, -5));
    m.button_middle = true;
    assert!(m.any_button_pressed());
}

#[test]
fn drag_operation_defaults_to_idle() {
    assert_eq!(DragOperation::default(), DragOperation::Idle);
}
