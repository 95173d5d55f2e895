//! The compositor driver core: the single dispatcher that translates
//! resolved actions and raw pointer events into registry and drag-state
//! changes. Outside work — spawning processes and stopping the event loop —
//! is handed back to the surrounding driver as an effect value.

use vstd::prelude::*;
use crate::config::Config;
use crate::input::{
    contains_modifier, first_match, load_bindings, Action, ActionView, ComboView, DragOperation,
    InputHandler, Modifier, MouseState,
};
use crate::manager::{
    add_transition, focus_transition, focused_present, focused_win, has_id, last_containing,
    lemma_first_index_of, lemma_update_focused_wf, move_to_workspace_transition,
    remove_transition, switch_transition, update_focused, WindowManager, WmView,
};
use crate::seq_util::lemma_filter_member;
use crate::window::{
    spec_toggle_fullscreen, spec_toggle_maximize, ManagedWindow, WindowGeometry, WindowId,
    WindowIdGenerator, WindowState,
};

verus! {

/// The fixed screen width the driver assumes.
pub const SCREEN_WIDTH: u32 = 1920;

/// The fixed screen height the driver assumes.
pub const SCREEN_HEIGHT: u32 = 1080;

/// The height of the reserved panel strip at the top of the screen.
pub const PANEL_HEIGHT: u32 = 48;

/// The abstract value of an effect.
#[verifier::ext_equal]
pub ghost enum EffectView {
    Nothing,
    Spawn(Seq<char>),
    Stop,
}

/// What the surrounding driver must do after a dispatch: nothing, launch an
/// external command, or stop the event loop.
#[derive(Debug, PartialEq, Eq)]
pub enum CompositorEffect {
    Nothing,
    Spawn(String),
    Stop,
}

impl View for CompositorEffect {
    type V = EffectView;

    open spec fn view(&self) -> EffectView {
        match self {
            CompositorEffect::Nothing => EffectView::Nothing,
            CompositorEffect::Spawn(cmd) => EffectView::Spawn(cmd@),
            CompositorEffect::Stop => EffectView::Stop,
        }
    }
}

/// The driver's abstract state: the registry, the keybinding table and held
/// modifiers, pointer and drag state, the running flag, the focus-follows-
/// mouse setting, and the next window identity to issue.
#[verifier::ext_equal]
pub ghost struct CoreView {
    pub wm: WmView,
    pub bindings: Seq<(ComboView, crate::input::ActionView)>,
    pub held: Seq<Modifier>,
    pub mouse: MouseState,
    pub drag: DragOperation,
    pub running: bool,
    pub focus_follows_mouse: bool,
    pub next_id: u32,
}

/// Every window identity in `s` lies below `bound`.
pub open spec fn ids_below(s: Seq<ManagedWindow>, bound: u32) -> bool {
    forall|i: int| 0 <= i < s.len() ==> s[i].id.0 < bound
}

/// Focusing neither adds nor grows window identities.
pub proof fn lemma_focus_ids_below(v: WmView, id: WindowId, bound: u32)
    requires
        ids_below(v.windows, bound),
    ensures
        ids_below(focus_transition(v, id).windows, bound),
{
    if has_id(v.windows, id) {
        let marked = v.windows.map_values(crate::manager::mark_focus(id));
        let i = crate::manager::first_index_of(v.windows, id);
        lemma_first_index_of(v.windows, id);
        let out = marked.remove(i).push(marked[i]);
        let n = v.windows.len() as int;
        assert forall|t: int| 0 <= t < out.len() implies out[t].id.0 < bound by {
            if t == n - 1 {
                assert(out[t] == marked[i]);
            } else {
                let ot = if t < i {
                    t
                } else {
                    t + 1
                };
                assert(out[t] == marked[ot]);
            }
        }
    }
}

/// Removal neither adds nor grows window identities.
pub proof fn lemma_remove_ids_below(v: WmView, id: WindowId, bound: u32)
    requires
        ids_below(v.windows, bound),
    ensures
        ids_below(remove_transition(v, id).windows, bound),
{
    let kept = v.windows.filter(crate::manager::keep_pred(id));
    assert forall|t: int| 0 <= t < kept.len() implies kept[t].id.0 < bound by {
        lemma_filter_member(v.windows, crate::manager::keep_pred(id), t);
        let j = choose|j: int| 0 <= j < v.windows.len() && v.windows[j] == kept[t];
    }
}

/// Replacing the focused window in place keeps every identity below the
/// bound, as long as the replacement keeps its identity.
pub proof fn lemma_update_focused_ids_below(v: WmView, nw: ManagedWindow, bound: u32)
    requires
        ids_below(v.windows, bound),
        focused_present(v) ==> nw.id == focused_win(v).id,
    ensures
        ids_below(update_focused(v, nw).windows, bound),
{
    if focused_present(v) {
        lemma_first_index_of(v.windows, v.focused.unwrap());
    }
}

/// Driver well-formedness: the registry is well-formed, the held-modifier
/// list carries no duplicates, and every present window identity lies below
/// the identity counter (so freshly issued identities never collide).
pub open spec fn core_wf(v: CoreView) -> bool {
    &&& v.wm.wf()
    &&& v.held.no_duplicates()
    &&& ids_below(v.wm.windows, v.next_id)
}

/// The state and effect an action produces. Every "focused window" action
/// is a no-op when no window is focused; fullscreen and maximize use the
/// fixed screen dimensions; directional focus/move/resize actions are
/// reserved and do nothing.
pub open spec fn action_transition(v: CoreView, a: crate::input::ActionView) -> (
    CoreView,
    EffectView,
) {
    match a {
        ActionView::Spawn(cmd) => (v, EffectView::Spawn(cmd)),
        ActionView::Close => if focused_present(v.wm) {
            (
                CoreView { wm: remove_transition(v.wm, v.wm.focused.unwrap()), ..v },
                EffectView::Nothing,
            )
        } else {
            (v, EffectView::Nothing)
        },
        ActionView::Fullscreen => if focused_present(v.wm) {
            (
                CoreView {
                    wm: update_focused(v.wm, spec_toggle_fullscreen(focused_win(v.wm),
                        SCREEN_WIDTH, SCREEN_HEIGHT)),
                    ..v
                },
                EffectView::Nothing,
            )
        } else {
            (v, EffectView::Nothing)
        },
        ActionView::ToggleFloating => if focused_present(v.wm) {
            (
                CoreView {
                    wm: update_focused(v.wm, ManagedWindow {
                        is_floating: !focused_win(v.wm).is_floating,
                        ..focused_win(v.wm)
                    }),
                    ..v
                },
                EffectView::Nothing,
            )
        } else {
            (v, EffectView::Nothing)
        },
        ActionView::Maximize => if focused_present(v.wm) {
            (
                CoreView {
                    wm: update_focused(v.wm, spec_toggle_maximize(focused_win(v.wm), SCREEN_WIDTH,
                        SCREEN_HEIGHT, PANEL_HEIGHT)),
                    ..v
                },
                EffectView::Nothing,
            )
        } else {
            (v, EffectView::Nothing)
        },
        ActionView::Minimize => if focused_present(v.wm) {
            (
                CoreView {
                    wm: update_focused(v.wm, ManagedWindow {
                        state: WindowState::Minimized,
                        ..focused_win(v.wm)
                    }),
                    ..v
                },
                EffectView::Nothing,
            )
        } else {
            (v, EffectView::Nothing)
        },
        ActionView::Exit => (CoreView { running: false, ..v }, EffectView::Stop),
        ActionView::Workspace(n) => (
            CoreView { wm: switch_transition(v.wm, n), ..v },
            EffectView::Nothing,
        ),
        ActionView::MoveToWorkspace(n) => if focused_present(v.wm) {
            (
                CoreView {
                    wm: move_to_workspace_transition(v.wm, v.wm.focused.unwrap(), n),
                    ..v
                },
                EffectView::Nothing,
            )
        } else {
            (v, EffectView::Nothing)
        },
        ActionView::Focus(_) => (v, EffectView::Nothing),
        ActionView::Move(_) => (v, EffectView::Nothing),
        ActionView::Resize(_, _) => (v, EffectView::Nothing),
        ActionView::NoOp => (v, EffectView::Nothing),
    }
}

/// The state and effect of a key press: the first matching binding's action
/// is executed; an unbound press does nothing.
pub open spec fn key_press_transition(v: CoreView, key: Seq<char>) -> (CoreView, EffectView) {
    match first_match(v.bindings, v.held, key) {
        Some(a) => action_transition(v, a),
        None => (v, EffectView::Nothing),
    }
}

/// A coordinate clamped into the `i32` range.
pub open spec fn clamp_coord(v: int) -> i32 {
    if v < i32::MIN {
        i32::MIN
    } else if v > i32::MAX {
        i32::MAX
    } else {
        v as i32
    }
}

/// A drag-resize dimension: never below the floor of 100, clamped above to
/// the `u32` range.
pub open spec fn clamp_dim(v: int) -> u32 {
    if v < 100 {
        100u32
    } else if v > u32::MAX {
        u32::MAX
    } else {
        v as u32
    }
}

/// The state after a pointer motion to `(x, y)`: the pointer position is
/// recorded; a move drag repositions the focused window by the pointer
/// delta, a resize drag resizes it (dimensions never drop below 100), and
/// with no drag active, focus follows the mouse onto the window under the
/// pointer when that setting is on.
pub open spec fn motion_transition(v: CoreView, x: i32, y: i32) -> CoreView {
    let v1 = CoreView { mouse: MouseState { x, y, ..v.mouse }, ..v };
    match v.drag {
        DragOperation::Move { start_x, start_y, window_x, window_y } => {
            if focused_present(v1.wm) {
                let nx = clamp_coord(window_x + (x - start_x));
                let ny = clamp_coord(window_y + (y - start_y));
                CoreView {
                    wm: update_focused(v1.wm, ManagedWindow {
                        geometry: WindowGeometry {
                            x: nx,
                            y: ny,
                            ..focused_win(v1.wm).geometry
                        },
                        ..focused_win(v1.wm)
                    }),
                    ..v1
                }
            } else {
                v1
            }
        },
        DragOperation::Resize { start_x, start_y, original_width, original_height } => {
            if focused_present(v1.wm) {
                let nw = clamp_dim(original_width + (x - start_x));
                let nh = clamp_dim(original_height + (y - start_y));
                CoreView {
                    wm: update_focused(v1.wm, ManagedWindow {
                        geometry: WindowGeometry {
                            width: nw,
                            height: nh,
                            ..focused_win(v1.wm).geometry
                        },
                        ..focused_win(v1.wm)
                    }),
                    ..v1
                }
            } else {
                v1
            }
        },
        DragOperation::Idle => {
            if v.focus_follows_mouse {
                match last_containing(v1.wm.visible_seq(), x as int, y as int) {
                    Some(w) => CoreView { wm: focus_transition(v1.wm, w.id), ..v1 },
                    None => v1,
                }
            } else {
                v1
            }
        },
    }
}

/// The mouse state with the button of the given code set to `pressed`;
/// unknown codes change nothing.
pub open spec fn button_update(m: MouseState, button: u32, pressed: bool) -> MouseState {
    if button == 0x110 {
        MouseState { button_left: pressed, ..m }
    } else if button == 0x111 {
        MouseState { button_right: pressed, ..m }
    } else if button == 0x112 {
        MouseState { button_middle: pressed, ..m }
    } else {
        m
    }
}

/// The state after a button event. A left press with Super held starts a
/// move drag of the focused window, a right press with Super held starts a
/// resize drag; a plain left press focuses the window under the pointer;
/// any release ends the drag.
pub open spec fn button_transition(v: CoreView, button: u32, pressed: bool) -> CoreView {
    let v1 = CoreView { mouse: button_update(v.mouse, button, pressed), ..v };
    if pressed {
        let has_super = v.held.contains(Modifier::Super);
        if has_super && button == 0x110 {
            if focused_present(v1.wm) {
                CoreView {
                    drag: DragOperation::Move {
                        start_x: v1.mouse.x,
                        start_y: v1.mouse.y,
                        window_x: focused_win(v1.wm).geometry.x,
                        window_y: focused_win(v1.wm).geometry.y,
                    },
                    ..v1
                }
            } else {
                v1
            }
        } else if has_super && button == 0x111 {
            if focused_present(v1.wm) {
                CoreView {
                    drag: DragOperation::Resize {
                        start_x: v1.mouse.x,
                        start_y: v1.mouse.y,
                        original_width: focused_win(v1.wm).geometry.width,
                        original_height: focused_win(v1.wm).geometry.height,
                    },
                    ..v1
                }
            } else {
                v1
            }
        } else if button == 0x110 {
            match last_containing(v1.wm.visible_seq(), v1.mouse.x as int, v1.mouse.y as int) {
                Some(w) => CoreView { wm: focus_transition(v1.wm, w.id), ..v1 },
                None => v1,
            }
        } else {
            v1
        }
    } else {
        CoreView { drag: DragOperation::Idle, ..v1 }
    }
}

/// A resize drag never drives a dimension below the floor of 100, whatever
/// the (possibly negative) pointer delta.
pub proof fn lemma_resize_floor(v: CoreView, x: i32, y: i32)
    requires
        v.drag is Resize,
        focused_present(v.wm),
    ensures
        ({
            let moved = motion_transition(v, x, y);
            let w = moved.wm.windows[crate::manager::first_index_of(v.wm.windows,
                v.wm.focused.unwrap())];
            w.geometry.width >= 100 && w.geometry.height >= 100
        }),
{
    lemma_first_index_of(v.wm.windows, v.wm.focused.unwrap());
}

/// The compositor driver: owns the registry, the input handler and the
/// pointer/drag state, and dispatches events against them.
pub struct SpinnerCompositor {
    config: Config,
    window_manager: WindowManager,
    input_handler: InputHandler,
    mouse_state: MouseState,
    drag_operation: DragOperation,
    running: bool,
    id_generator: WindowIdGenerator,
}

impl View for SpinnerCompositor {
    type V = CoreView;

    closed spec fn view(&self) -> CoreView {
        CoreView {
            wm: self.window_manager@,
            bindings: self.input_handler.bindings(),
            held: self.input_handler.held(),
            mouse: self.mouse_state,
            drag: self.drag_operation,
            running: self.running,
            focus_follows_mouse: self.config.general.focus_follows_mouse,
            next_id: self.id_generator.next_raw(),
        }
    }
}

impl SpinnerCompositor {
    /// A fresh driver over the fixed screen: an empty registry on workspace
    /// 1, the keybinding table loaded from the configuration, no held
    /// modifiers, the pointer at the origin, no drag, and the running flag
    /// set.
    pub fn new(config: Config) -> (c: SpinnerCompositor)
        ensures
            c@ == (CoreView {
                wm: WmView {
                    windows: Seq::<ManagedWindow>::empty(),
                    focused: None::<WindowId>,
                    current_workspace: 1u32,
                    screen_width: SCREEN_WIDTH,
                    screen_height: SCREEN_HEIGHT,
                    panel_height: PANEL_HEIGHT,
                },
                bindings: load_bindings(config.keybindings@),
                held: Seq::<Modifier>::empty(),
                mouse: MouseState {
                    x: 0,
                    y: 0,
                    button_left: false,
                    button_right: false,
                    button_middle: false,
                },
                drag: DragOperation::Idle,
                running: true,
                focus_follows_mouse: config.general.focus_follows_mouse,
                next_id: 1u32,
            }),
            core_wf(c@),
    {
        let window_manager = WindowManager::new(SCREEN_WIDTH, SCREEN_HEIGHT, PANEL_HEIGHT);
        let input_handler = InputHandler::new(&config);
        let c = SpinnerCompositor {
            config,
            window_manager,
            input_handler,
            mouse_state: MouseState::default(),
            drag_operation: DragOperation::Idle,
            running: true,
            id_generator: WindowIdGenerator::new(),
        };
        proof {
            assert(c@ =~= (CoreView {
                wm: WmView {
                    windows: Seq::<ManagedWindow>::empty(),
                    focused: None::<WindowId>,
                    current_workspace: 1u32,
                    screen_width: SCREEN_WIDTH,
                    screen_height: SCREEN_HEIGHT,
                    panel_height: PANEL_HEIGHT,
                },
                bindings: load_bindings(c.config.keybindings@),
                held: Seq::<Modifier>::empty(),
                mouse: MouseState {
                    x: 0,
                    y: 0,
                    button_left: false,
                    button_right: false,
                    button_middle: false,
                },
                drag: DragOperation::Idle,
                running: true,
                focus_follows_mouse: c.config.general.focus_follows_mouse,
                next_id: 1u32,
            }));
        }
        c
    }

    /// Whether the driver loop should keep running.
    pub fn is_running(&self) -> (r: bool)
        ensures
            r == self@.running,
    {
        self.running
    }

    /// Records a modifier as held.
    pub fn modifier_pressed(&mut self, modifier: Modifier)
        requires
            core_wf(old(self)@),
        ensures
            core_wf(final(self)@),
            final(self)@ == (CoreView {
                held: if old(self)@.held.contains(modifier) {
                    old(self)@.held
                } else {
                    old(self)@.held.push(modifier)
                },
                ..old(self)@
            }),
    {
        self.input_handler.modifier_pressed(modifier);
        proof {
            assert(final(self)@ =~= (CoreView {
                held: if old(self)@.held.contains(modifier) {
                    old(self)@.held
                } else {
                    old(self)@.held.push(modifier)
                },
                ..old(self)@
            }));
        }
    }

    /// Releases a held modifier.
    pub fn modifier_released(&mut self, modifier: Modifier)
        requires
            core_wf(old(self)@),
        ensures
            core_wf(final(self)@),
            final(self)@ == (CoreView {
                held: old(self)@.held.filter(crate::input::keep_modifier(modifier)),
                ..old(self)@
            }),
    {
        self.input_handler.modifier_released(modifier);
        proof {
            assert(final(self)@ =~= (CoreView {
                held: old(self)@.held.filter(crate::input::keep_modifier(modifier)),
                ..old(self)@
            }));
        }
    }

    /// Resolves a key press against the keybinding table and executes the
    /// resulting action, if any.
    pub fn handle_key_press(&mut self, key: &str) -> (e: CompositorEffect)
        requires
            core_wf(old(self)@),
        ensures
            core_wf(final(self)@),
            final(self)@ == key_press_transition(old(self)@, key@).0,
            e@ == key_press_transition(old(self)@, key@).1,
    {
        let action = self.input_handler.key_pressed(key);
        match action {
            Some(a) => self.execute_action(a),
            None => CompositorEffect::Nothing,
        }
    }

    /// Executes a resolved action against the registry and drag state,
    /// producing the effect the surrounding driver must perform.
    #[verifier::rlimit(100)]
    #[verifier::spinoff_prover]
    fn execute_action(&mut self, action: Action) -> (e: CompositorEffect)
        requires
            core_wf(old(self)@),
        ensures
            core_wf(final(self)@),
            final(self)@ == action_transition(old(self)@, action@).0,
            e@ == action_transition(old(self)@, action@).1,
    {
        match action {
            Action::Spawn(cmd) => CompositorEffect::Spawn(cmd),
            Action::Close => {
                match self.window_manager.focused_id() {
                    Some(id) => {
                        self.close_window(id);
                        proof {
                            lemma_remove_ids_below(old(self)@.wm, id, old(self)@.next_id);
                            assert(final(self)@ =~= action_transition(old(self)@,
                                ActionView::Close).0);
                        }
                        CompositorEffect::Nothing
                    },
                    None => CompositorEffect::Nothing,
                }
            },
            Action::Fullscreen => {
                match self.window_manager.focused_id() {
                    Some(_) => {
                        let ghost v0 = self@;
                        let w = self.window_manager.focused_window_mut();
                        w.toggle_fullscreen(SCREEN_WIDTH, SCREEN_HEIGHT);
                        proof {
                            lemma_update_focused_wf(v0.wm, spec_toggle_fullscreen(focused_win(
                                v0.wm), SCREEN_WIDTH, SCREEN_HEIGHT));
                            lemma_update_focused_ids_below(v0.wm, spec_toggle_fullscreen(
                                focused_win(v0.wm), SCREEN_WIDTH, SCREEN_HEIGHT), v0.next_id);
                            assert(final(self)@ =~= action_transition(v0,
                                ActionView::Fullscreen).0);
                        }
                        CompositorEffect::Nothing
                    },
                    None => CompositorEffect::Nothing,
                }
            },
            Action::ToggleFloating => {
                match self.window_manager.focused_id() {
                    Some(_) => {
                        let ghost v0 = self@;
                        let w = self.window_manager.focused_window_mut();
                        w.toggle_floating();
                        proof {
                            lemma_update_focused_wf(v0.wm, ManagedWindow {
                                is_floating: !focused_win(v0.wm).is_floating,
                                ..focused_win(v0.wm)
                            });
                            lemma_update_focused_ids_below(v0.wm, ManagedWindow {
                                is_floating: !focused_win(v0.wm).is_floating,
                                ..focused_win(v0.wm)
                            }, v0.next_id);
                            assert(final(self)@ =~= action_transition(v0,
                                ActionView::ToggleFloating).0);
                        }
                        CompositorEffect::Nothing
                    },
                    None => CompositorEffect::Nothing,
                }
            },
            Action::Maximize => {
                match self.window_manager.focused_id() {
                    Some(_) => {
                        let ghost v0 = self@;
                        let w = self.window_manager.focused_window_mut();
                        w.toggle_maximize(SCREEN_WIDTH, SCREEN_HEIGHT, PANEL_HEIGHT);
                        proof {
                            lemma_update_focused_wf(v0.wm, spec_toggle_maximize(focused_win(
                                v0.wm), SCREEN_WIDTH, SCREEN_HEIGHT, PANEL_HEIGHT));
                            lemma_update_focused_ids_below(v0.wm, spec_toggle_maximize(
                                focused_win(v0.wm), SCREEN_WIDTH, SCREEN_HEIGHT, PANEL_HEIGHT),
                                v0.next_id);
                            assert(final(self)@ =~= action_transition(v0,
                                ActionView::Maximize).0);
                        }
                        CompositorEffect::Nothing
                    },
                    None => CompositorEffect::Nothing,
                }
            },
            Action::Minimize => {
                match self.window_manager.focused_id() {
                    Some(_) => {
                        let ghost v0 = self@;
                        let w = self.window_manager.focused_window_mut();
                        w.minimize();
                        proof {
                            lemma_update_focused_wf(v0.wm, ManagedWindow {
                                state: WindowState::Minimized,
                                ..focused_win(v0.wm)
                            });
                            lemma_update_focused_ids_below(v0.wm, ManagedWindow {
                                state: WindowState::Minimized,
                                ..focused_win(v0.wm)
                            }, v0.next_id);
                            assert(final(self)@ =~= action_transition(v0,
                                ActionView::Minimize).0);
                        }
                        CompositorEffect::Nothing
                    },
                    None => CompositorEffect::Nothing,
                }
            },
            Action::Exit => {
                self.running = false;
                CompositorEffect::Stop
            },
            Action::Workspace(n) => {
                self.window_manager.switch_workspace(n);
                proof {
                    assert(final(self)@ =~= action_transition(old(self)@,
                        ActionView::Workspace(n)).0);
                }
                CompositorEffect::Nothing
            },
            Action::MoveToWorkspace(n) => {
                match self.window_manager.focused_id() {
                    Some(id) => {
                        self.window_manager.move_window_to_workspace(id, n);
                        proof {
                            if has_id(old(self)@.wm.windows, id) {
                                lemma_first_index_of(old(self)@.wm.windows, id);
                            }
                            let out = move_to_workspace_transition(old(self)@.wm, id, n);
                            assert(forall|t: int|
                                0 <= t < out.windows.len() ==> out.windows[t].id
                                    == old(self)@.wm.windows[t].id);
                            assert(final(self)@ =~= action_transition(old(self)@,
                                ActionView::MoveToWorkspace(n)).0);
                        }
                        CompositorEffect::Nothing
                    },
                    None => CompositorEffect::Nothing,
                }
            },
            Action::Focus(_) => CompositorEffect::Nothing,
            Action::Move(_) => CompositorEffect::Nothing,
            Action::Resize(_, _) => CompositorEffect::Nothing,
            Action::NoOp => CompositorEffect::Nothing,
        }
    }

    /// Removes a window from the registry.
    fn close_window(&mut self, id: WindowId)
        requires
            old(self)@.wm.wf(),
        ensures
            final(self)@ == (CoreView { wm: remove_transition(old(self)@.wm, id), ..old(self)@ }),
            final(self)@.wm.wf(),
    {
        self.window_manager.remove_window(id);
        proof {
            assert(final(self)@ =~= (CoreView {
                wm: remove_transition(old(self)@.wm, id),
                ..old(self)@
            }));
        }
    }

    /// Records the pointer position and applies the active drag: a move
    /// drag repositions the focused window, a resize drag resizes it with a
    /// floor of 100 on each dimension, and with no drag active, focus
    /// follows the mouse when that setting is on.
    pub fn handle_mouse_motion(&mut self, x: i32, y: i32)
        requires
            core_wf(old(self)@),
        ensures
            core_wf(final(self)@),
            final(self)@ == motion_transition(old(self)@, x, y),
    {
        let ghost v0 = self@;
        self.mouse_state.update_position(x, y);
        let drag = self.drag_operation;
        match drag {
            DragOperation::Move { start_x, start_y, window_x, window_y } => {
                match self.window_manager.focused_id() {
                    Some(_) => {
                        let dx = (x as i64) - (start_x as i64);
                        let dy = (y as i64) - (start_y as i64);
                        let nx64 = (window_x as i64) + dx;
                        let ny64 = (window_y as i64) + dy;
                        let nx = clamp_coord_exec(nx64);
                        let ny = clamp_coord_exec(ny64);
                        let w = self.window_manager.focused_window_mut();
                        w.set_position(nx, ny);
                        proof {
                            lemma_update_focused_wf(v0.wm, ManagedWindow {
                                geometry: WindowGeometry {
                                    x: nx,
                                    y: ny,
                                    ..focused_win(v0.wm).geometry
                                },
                                ..focused_win(v0.wm)
                            });
                            lemma_update_focused_ids_below(v0.wm, ManagedWindow {
                                geometry: WindowGeometry {
                                    x: nx,
                                    y: ny,
                                    ..focused_win(v0.wm).geometry
                                },
                                ..focused_win(v0.wm)
                            }, v0.next_id);
                            assert(final(self)@ =~= motion_transition(v0, x, y));
                        }
                    },
                    None => {
                        proof {
                            assert(final(self)@ =~= motion_transition(v0, x, y));
                        }
                    },
                }
            },
            DragOperation::Resize { start_x, start_y, original_width, original_height } => {
                match self.window_manager.focused_id() {
                    Some(_) => {
                        let dx = (x as i64) - (start_x as i64);
                        let dy = (y as i64) - (start_y as i64);
                        let nw64 = (original_width as i64) + dx;
                        let nh64 = (original_height as i64) + dy;
                        let nw = clamp_dim_exec(nw64);
                        let nh = clamp_dim_exec(nh64);
                        let w = self.window_manager.focused_window_mut();
                        w.set_size(nw, nh);
                        proof {
                            lemma_update_focused_wf(v0.wm, ManagedWindow {
                                geometry: WindowGeometry {
                                    width: nw,
                                    height: nh,
                                    ..focused_win(v0.wm).geometry
                                },
                                ..focused_win(v0.wm)
                            });
                            lemma_update_focused_ids_below(v0.wm, ManagedWindow {
                                geometry: WindowGeometry {
                                    width: nw,
                                    height: nh,
                                    ..focused_win(v0.wm).geometry
                                },
                                ..focused_win(v0.wm)
                            }, v0.next_id);
                            assert(final(self)@ =~= motion_transition(v0, x, y));
                        }
                    },
                    None => {
                        proof {
                            assert(final(self)@ =~= motion_transition(v0, x, y));
                        }
                    },
                }
            },
            DragOperation::Idle => {
                if self.config.general.focus_follows_mouse {
                    let target = match self.window_manager.window_at_point(x, y) {
                        Some(w) => Some(w.id),
                        None => None,
                    };
                    match target {
                        Some(id) => {
                            self.window_manager.focus_window(id);
                            proof {
                                lemma_focus_ids_below(v0.wm, id, v0.next_id);
                                assert(final(self)@ =~= motion_transition(v0, x, y));
                            }
                        },
                        None => {
                            proof {
                                assert(final(self)@ =~= motion_transition(v0, x, y));
                            }
                        },
                    }
                } else {
                    proof {
                        assert(final(self)@ =~= motion_transition(v0, x, y));
                    }
                }
            },
        }
    }

    /// Records a button state change and starts, ends or redirects the drag
    /// interaction accordingly.
    pub fn handle_mouse_button(&mut self, button: u32, pressed: bool)
        requires
            core_wf(old(self)@),
        ensures
            core_wf(final(self)@),
            final(self)@ == button_transition(old(self)@, button, pressed),
    {
        let ghost v0 = self@;
        if button == 0x110 {
            self.mouse_state.button_left = pressed;
        } else if button == 0x111 {
            self.mouse_state.button_right = pressed;
        } else if button == 0x112 {
            self.mouse_state.button_middle = pressed;
        }
        if pressed {
            let has_super = contains_modifier(self.input_handler.current_modifiers(),
                Modifier::Super);
            if has_super && button == 0x110 {
                match self.window_manager.focused_window() {
                    Some(w) => {
                        self.drag_operation = DragOperation::Move {
                            start_x: self.mouse_state.x,
                            start_y: self.mouse_state.y,
                            window_x: w.geometry.x,
                            window_y: w.geometry.y,
                        };
                    },
                    None => {},
                }
                proof {
                    assert(final(self)@ =~= button_transition(v0, button, pressed));
                }
            } else if has_super && button == 0x111 {
                match self.window_manager.focused_window() {
                    Some(w) => {
                        self.drag_operation = DragOperation::Resize {
                            start_x: self.mouse_state.x,
                            start_y: self.mouse_state.y,
                            original_width: w.geometry.width,
                            original_height: w.geometry.height,
                        };
                    },
                    None => {},
                }
                proof {
                    assert(final(self)@ =~= button_transition(v0, button, pressed));
                }
            } else if button == 0x110 {
                let target = match self.window_manager.window_at_point(self.mouse_state.x,
                    self.mouse_state.y) {
                    Some(w) => Some(w.id),
                    None => None,
                };
                match target {
                    Some(id) => {
                        self.window_manager.focus_window(id);
                        proof {
                            lemma_focus_ids_below(v0.wm, id, v0.next_id);
                            assert(final(self)@ =~= button_transition(v0, button, pressed));
                        }
                    },
                    None => {
                        proof {
                            assert(final(self)@ =~= button_transition(v0, button, pressed));
                        }
                    },
                }
            } else {
                proof {
                    assert(final(self)@ =~= button_transition(v0, button, pressed));
                }
            }
        } else {
            self.drag_operation = DragOperation::Idle;
            proof {
                assert(final(self)@ =~= button_transition(v0, button, pressed));
            }
        }
    }

    /// Registers a new client window: it gets a fresh identity and default
    /// placement, and the registry centers and focuses it.
    pub fn add_window(&mut self, title: String, app_id: String, width: u32, height: u32)
        requires
            core_wf(old(self)@),
            old(self)@.next_id < u32::MAX,
            width <= old(self)@.wm.screen_width,
            height <= old(self)@.wm.screen_height - old(self)@.wm.panel_height,
        ensures
            core_wf(final(self)@),
            final(self)@ == (CoreView {
                wm: add_transition(old(self)@.wm, ManagedWindow {
                    id: WindowId(old(self)@.next_id),
                    title,
                    app_id,
                    geometry: WindowGeometry { x: 0, y: 0, width, height },
                    saved_geometry: None,
                    state: WindowState::Normal,
                    is_floating: true,
                    workspace: 1u32,
                    focused: false,
                    urgent: false,
                    decorations: true,
                }),
                next_id: (old(self)@.next_id + 1) as u32,
                ..old(self)@
            }),
    {
        let ghost v0 = self@;
        let id = self.id_generator.fresh();
        proof {
            if has_id(v0.wm.windows, id) {
                let i = choose|i: int|
                    0 <= i < v0.wm.windows.len() && v0.wm.windows[i].id == id;
                assert(v0.wm.windows[i].id.0 < v0.next_id);
            }
        }
        let window = ManagedWindow::new(id, title, app_id, 0, 0, width, height);
        let ghost placed = ManagedWindow {
            workspace: v0.wm.current_workspace,
            geometry: crate::manager::centered_geometry(v0.wm, window.geometry),
            ..window
        };
        self.window_manager.add_window(window);
        proof {
            let pushed = WmView { windows: v0.wm.windows.push(placed), ..v0.wm };
            assert(ids_below(pushed.windows, (v0.next_id + 1) as u32)) by {
                assert(forall|t: int|
                    0 <= t < v0.wm.windows.len() ==> pushed.windows[t] == v0.wm.windows[t]);
            }
            lemma_focus_ids_below(pushed, id, (v0.next_id + 1) as u32);
            assert(final(self)@ =~= (CoreView {
                wm: add_transition(v0.wm, ManagedWindow {
                    id: WindowId(v0.next_id),
                    title: window.title,
                    app_id: window.app_id,
                    geometry: WindowGeometry { x: 0, y: 0, width, height },
                    saved_geometry: None,
                    state: WindowState::Normal,
                    is_floating: true,
                    workspace: 1u32,
                    focused: false,
                    urgent: false,
                    decorations: true,
                }),
                next_id: (v0.next_id + 1) as u32,
                ..v0
            }));
        }
    }

    /// The registry, for queries.
    pub fn window_manager(&self) -> (r: &WindowManager)
        ensures
            r@ == self@.wm,
    {
        &self.window_manager
    }

    /// Mutable access to the registry. The caller's changes land in the
    /// driver's registry unmediated, so driver well-formedness afterwards is
    /// up to the caller's use of the registry's own operations.
    pub fn window_manager_mut(&mut self) -> (r: &mut WindowManager)
        ensures
            (*r)@ == old(self)@.wm,
            final(self)@ == (CoreView { wm: (*final(r))@, ..old(self)@ }),
    {
        &mut self.window_manager
    }
}

/// Clamps a 64-bit coordinate into the `i32` range.
fn clamp_coord_exec(v: i64) -> (r: i32)
    ensures
        r == clamp_coord(v as int),
{
    if v < i32::MIN as i64 {
        i32::MIN
    } else if v > i32::MAX as i64 {
        i32::MAX
    } else {
        v as i32
    }
}

/// Clamps a 64-bit dimension to at least 100 and at most `u32::MAX`.
fn clamp_dim_exec(v: i64) -> (r: u32)
    ensures
        r == clamp_dim(v as int),
{
    if v < 100 {
        100
    } else if v > u32::MAX as i64 {
        u32::MAX
    } else {
        v as u32
    }
}

} // verus!
