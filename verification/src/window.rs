//! The window model: identity, geometry, state, and the save/restore logic
//! for maximize and fullscreen transitions.

use vstd::prelude::*;

verus! {

/// An opaque window identity: a monotonically increasing integer, issued by
/// a [`WindowIdGenerator`], never reused and immutable once assigned.
#[derive(Clone, Copy, Debug, PartialEq, Eq, Hash, Structural)]
pub struct WindowId(pub u32);

impl WindowId {
    /// Wraps a raw counter value as a window identity.
    pub fn new(raw: u32) -> (id: WindowId)
        ensures
            id == WindowId(raw),
    {
        WindowId(raw)
    }
}

/// Issues fresh window identities. The counter starts at 1 and only grows,
/// so every identity handed out is distinct from every earlier one.
pub struct WindowIdGenerator {
    next: u32,
}

impl WindowIdGenerator {
    /// The raw value the next issued identity will carry.
    pub closed spec fn next_raw(self) -> u32 {
        self.next
    }

    pub fn new() -> (g: WindowIdGenerator)
        ensures
            g.next_raw() == 1u32,
    {
        WindowIdGenerator { next: 1 }
    }

    /// Issues the next identity and advances the counter.
    pub fn fresh(&mut self) -> (id: WindowId)
        requires
            old(self).next_raw() < u32::MAX,
        ensures
            id == WindowId(old(self).next_raw()),
            final(self).next_raw() == old(self).next_raw() + 1,
    {
        let raw = self.next;
        self.next = self.next + 1;
        WindowId(raw)
    }
}

/// The four mutually exclusive window states.
#[derive(Clone, Copy, Debug, PartialEq, Eq, Structural)]
pub enum WindowState {
    Normal,
    Maximized,
    Fullscreen,
    Minimized,
}

/// A top-left-origin rectangle in logical pixels.
#[verifier::ext_equal]
#[derive(Clone, Copy, Debug, PartialEq, Eq, Structural)]
pub struct WindowGeometry {
    pub x: i32,
    pub y: i32,
    pub width: u32,
    pub height: u32,
}

impl WindowGeometry {
    pub fn new(x: i32, y: i32, width: u32, height: u32) -> (g: WindowGeometry)
        ensures
            g == (WindowGeometry { x, y, width, height }),
    {
        WindowGeometry { x, y, width, height }
    }

    /// Whether the point lies inside the rectangle: the left and top edges
    /// are inclusive, the right and bottom edges exclusive.
    pub open spec fn spec_contains_point(self, px: int, py: int) -> bool {
        &&& px >= self.x
        &&& px < self.x + self.width
        &&& py >= self.y
        &&& py < self.y + self.height
    }

    pub fn contains_point(&self, x: i32, y: i32) -> (r: bool)
        ensures
            r == self.spec_contains_point(x as int, y as int),
    {
        (x as i64) >= (self.x as i64) && (x as i64) < (self.x as i64) + (self.width as i64)
            && (y as i64) >= (self.y as i64) && (y as i64) < (self.y as i64) + (self.height as i64)
    }
}

/// A managed window: identity, descriptive strings, current and saved
/// geometry, state, layout hints and flags.
///
/// The saved geometry is a single slot, deliberately: entering Maximized or
/// Fullscreen overwrites it with whatever the geometry was at that moment.
/// So a window taken from Maximized straight to Fullscreen saves the
/// maximized rectangle and the pre-maximize one is gone — the transitions
/// do not nest, they flatten.
#[verifier::ext_equal]
pub struct ManagedWindow {
    pub id: WindowId,
    pub title: String,
    pub app_id: String,
    pub geometry: WindowGeometry,
    pub saved_geometry: Option<WindowGeometry>,
    pub state: WindowState,
    pub is_floating: bool,
    pub workspace: u32,
    pub focused: bool,
    pub urgent: bool,
    pub decorations: bool,
}

impl Clone for ManagedWindow {
    fn clone(&self) -> (r: Self)
        ensures
            r == *self,
    {
        ManagedWindow {
            id: self.id,
            title: self.title.clone(),
            app_id: self.app_id.clone(),
            geometry: self.geometry,
            saved_geometry: self.saved_geometry,
            state: self.state,
            is_floating: self.is_floating,
            workspace: self.workspace,
            focused: self.focused,
            urgent: self.urgent,
            decorations: self.decorations,
        }
    }
}

/// The result of maximizing `w`: a no-op if already maximized, otherwise
/// the current geometry is saved and the window fills the screen below the
/// panel strip.
pub open spec fn spec_maximize(w: ManagedWindow, sw: u32, sh: u32, ph: u32) -> ManagedWindow {
    if w.state == WindowState::Maximized {
        w
    } else {
        ManagedWindow {
            geometry: WindowGeometry {
                x: 0,
                y: ph as i32,
                width: sw,
                height: (sh - ph) as u32,
            },
            saved_geometry: Some(w.geometry),
            state: WindowState::Maximized,
            ..w
        }
    }
}

/// The result of unmaximizing `w`: a no-op unless maximized, otherwise the
/// saved geometry is restored (and consumed) and the state returns to Normal.
pub open spec fn spec_unmaximize(w: ManagedWindow) -> ManagedWindow {
    if w.state == WindowState::Maximized {
        ManagedWindow {
            geometry: match w.saved_geometry {
                Some(saved) => saved,
                None => w.geometry,
            },
            saved_geometry: None,
            state: WindowState::Normal,
            ..w
        }
    } else {
        w
    }
}

/// The result of making `w` fullscreen: a no-op when already fullscreen,
/// otherwise the current geometry is saved, the window covers the whole
/// screen and decorations are dropped.
pub open spec fn spec_fullscreen(w: ManagedWindow, sw: u32, sh: u32) -> ManagedWindow {
    if w.state == WindowState::Fullscreen {
        w
    } else {
        ManagedWindow {
            geometry: WindowGeometry { x: 0, y: 0, width: sw, height: sh },
            saved_geometry: Some(w.geometry),
            state: WindowState::Fullscreen,
            decorations: false,
            ..w
        }
    }
}

/// The result of leaving fullscreen: a no-op unless fullscreen, otherwise the
/// saved geometry is restored (and consumed), the state returns to Normal and
/// decorations come back.
pub open spec fn spec_unfullscreen(w: ManagedWindow) -> ManagedWindow {
    if w.state == WindowState::Fullscreen {
        ManagedWindow {
            geometry: match w.saved_geometry {
                Some(saved) => saved,
                None => w.geometry,
            },
            saved_geometry: None,
            state: WindowState::Normal,
            decorations: true,
            ..w
        }
    } else {
        w
    }
}

/// Toggling maximize dispatches on the current state.
pub open spec fn spec_toggle_maximize(w: ManagedWindow, sw: u32, sh: u32, ph: u32) -> ManagedWindow {
    if w.state == WindowState::Maximized {
        spec_unmaximize(w)
    } else {
        spec_maximize(w, sw, sh, ph)
    }
}

/// Toggling fullscreen dispatches on the current state.
pub open spec fn spec_toggle_fullscreen(w: ManagedWindow, sw: u32, sh: u32) -> ManagedWindow {
    if w.state == WindowState::Fullscreen {
        spec_unfullscreen(w)
    } else {
        spec_fullscreen(w, sw, sh)
    }
}

impl ManagedWindow {
    /// A fresh window: Normal state, floating, workspace 1, decorated,
    /// neither focused nor urgent, no saved geometry.
    pub fn new(id: WindowId, title: String, app_id: String, x: i32, y: i32, width: u32, height: u32)
        -> (w: ManagedWindow)
        ensures
            w.id == id,
            w.title == title,
            w.app_id == app_id,
            w.geometry == (WindowGeometry { x, y, width, height }),
            w.saved_geometry is None,
            w.state == WindowState::Normal,
            w.is_floating,
            w.workspace == 1u32,
            !w.focused,
            !w.urgent,
            w.decorations,
    {
        ManagedWindow {
            id,
            title,
            app_id,
            geometry: WindowGeometry { x, y, width, height },
            saved_geometry: None,
            state: WindowState::Normal,
            is_floating: true,
            workspace: 1,
            focused: false,
            urgent: false,
            decorations: true,
        }
    }

    /// Unconditionally moves the window's top-left corner.
    pub fn set_position(&mut self, x: i32, y: i32)
        ensures
            *final(self) == (ManagedWindow {
                geometry: WindowGeometry { x, y, ..old(self).geometry },
                ..*old(self)
            }),
    {
        self.geometry.x = x;
        self.geometry.y = y;
    }

    /// Unconditionally resizes the window.
    pub fn set_size(&mut self, width: u32, height: u32)
        ensures
            *final(self) == (ManagedWindow {
                geometry: WindowGeometry { width, height, ..old(self).geometry },
                ..*old(self)
            }),
    {
        self.geometry.width = width;
        self.geometry.height = height;
    }

    pub fn maximize(&mut self, screen_width: u32, screen_height: u32, panel_height: u32)
        requires
            panel_height <= screen_height,
            screen_height <= 0x7fff_ffff,
        ensures
            *final(self) == spec_maximize(*old(self), screen_width, screen_height, panel_height),
    {
        if !(self.state == WindowState::Maximized) {
            self.saved_geometry = Some(self.geometry);
            self.geometry = WindowGeometry {
                x: 0,
                y: panel_height as i32,
                width: screen_width,
                height: screen_height - panel_height,
            };
            self.state = WindowState::Maximized;
        }
    }

    pub fn unmaximize(&mut self)
        ensures
            *final(self) == spec_unmaximize(*old(self)),
    {
        if self.state == WindowState::Maximized {
            if let Some(saved) = self.saved_geometry {
                self.geometry = saved;
            }
            self.saved_geometry = None;
            self.state = WindowState::Normal;
        }
    }

    /// Dispatches to maximize or unmaximize based on the current state.
    pub fn toggle_maximize(&mut self, screen_width: u32, screen_height: u32, panel_height: u32)
        requires
            panel_height <= screen_height,
            screen_height <= 0x7fff_ffff,
        ensures
            *final(self) == spec_toggle_maximize(*old(self), screen_width, screen_height,
                panel_height),
    {
        if self.state == WindowState::Maximized {
            self.unmaximize();
        } else {
            self.maximize(screen_width, screen_height, panel_height);
        }
    }

    pub fn fullscreen(&mut self, screen_width: u32, screen_height: u32)
        ensures
            *final(self) == spec_fullscreen(*old(self), screen_width, screen_height),
    {
        if !(self.state == WindowState::Fullscreen) {
            self.saved_geometry = Some(self.geometry);
            self.geometry = WindowGeometry { x: 0, y: 0, width: screen_width, height: screen_height };
            self.state = WindowState::Fullscreen;
            self.decorations = false;
        }
    }

    pub fn unfullscreen(&mut self)
        ensures
            *final(self) == spec_unfullscreen(*old(self)),
    {
        if self.state == WindowState::Fullscreen {
            if let Some(saved) = self.saved_geometry {
                self.geometry = saved;
            }
            self.saved_geometry = None;
            self.state = WindowState::Normal;
            self.decorations = true;
        }
    }

    /// Dispatches to fullscreen or unfullscreen based on the current state.
    pub fn toggle_fullscreen(&mut self, screen_width: u32, screen_height: u32)
        ensures
            *final(self) == spec_toggle_fullscreen(*old(self), screen_width, screen_height),
    {
        if self.state == WindowState::Fullscreen {
            self.unfullscreen();
        } else {
            self.fullscreen(screen_width, screen_height);
        }
    }

    /// Minimizes unconditionally; geometry and saved geometry are untouched.
    pub fn minimize(&mut self)
        ensures
            *final(self) == (ManagedWindow { state: WindowState::Minimized, ..*old(self) }),
    {
        self.state = WindowState::Minimized;
    }

    /// Leaves the Minimized state; a no-op in any other state.
    pub fn restore(&mut self)
        ensures
            old(self).state == WindowState::Minimized
                ==> *final(self) == (ManagedWindow { state: WindowState::Normal, ..*old(self) }),
            old(self).state != WindowState::Minimized ==> *final(self) == *old(self),
    {
        if self.state == WindowState::Minimized {
            self.state = WindowState::Normal;
        }
    }

    /// Flips the floating layout hint.
    pub fn toggle_floating(&mut self)
        ensures
            *final(self) == (ManagedWindow { is_floating: !old(self).is_floating, ..*old(self) }),
    {
        self.is_floating = !self.is_floating;
    }

    /// A window is visible on its workspace unless it is minimized.
    pub open spec fn spec_is_visible(self) -> bool {
        self.state != WindowState::Minimized
    }

    pub fn is_visible(&self) -> (r: bool)
        ensures
            r == self.spec_is_visible(),
    {
        !(self.state == WindowState::Minimized)
    }
}

/// Maximize followed by unmaximize restores exactly the pre-maximize
/// geometry, whenever the window was not already maximized to begin with.
pub proof fn lemma_maximize_round_trip(w: ManagedWindow, sw: u32, sh: u32, ph: u32)
    requires
        w.state != WindowState::Maximized,
    ensures
        spec_unmaximize(spec_maximize(w, sw, sh, ph)).geometry == w.geometry,
        spec_unmaximize(spec_maximize(w, sw, sh, ph)).state == WindowState::Normal,
        spec_unmaximize(spec_maximize(w, sw, sh, ph)).saved_geometry is None,
{
}

/// Fullscreen followed by unfullscreen restores exactly the pre-fullscreen
/// geometry and brings decorations back, whenever the window was not already
/// fullscreen to begin with.
pub proof fn lemma_fullscreen_round_trip(w: ManagedWindow, sw: u32, sh: u32)
    requires
        w.state != WindowState::Fullscreen,
    ensures
        spec_unfullscreen(spec_fullscreen(w, sw, sh)).geometry == w.geometry,
        spec_unfullscreen(spec_fullscreen(w, sw, sh)).state == WindowState::Normal,
        spec_unfullscreen(spec_fullscreen(w, sw, sh)).decorations,
{
}

} // verus!
