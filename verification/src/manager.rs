//! The window registry: an ordered collection of managed windows whose order
//! encodes focus recency (the tail is the most recently focused window and
//! the top of the stacking order), together with the focused-window pointer,
//! the current workspace and the screen dimensions.

use vstd::prelude::*;
use crate::seq_util::{lemma_filter_member, lemma_filter_push};
use crate::window::{ManagedWindow, WindowGeometry, WindowId};

verus! {

/// The registry's abstract state: the window sequence in recency order plus
/// the focus pointer, workspace and screen dimensions.
#[verifier::ext_equal]
pub ghost struct WmView {
    pub windows: Seq<ManagedWindow>,
    pub focused: Option<WindowId>,
    pub current_workspace: u32,
    pub screen_width: u32,
    pub screen_height: u32,
    pub panel_height: u32,
}

/// Whether some window in `s` carries the identity `id`.
pub open spec fn has_id(s: Seq<ManagedWindow>, id: WindowId) -> bool {
    exists|i: int| 0 <= i < s.len() && s[i].id == id
}

/// The position of the first window in `s` carrying `id`; meaningful only
/// when `has_id(s, id)` holds.
pub open spec fn first_index_of(s: Seq<ManagedWindow>, id: WindowId) -> int
    decreases s.len(),
{
    if s.len() == 0 {
        0
    } else if s[0].id == id {
        0
    } else {
        1 + first_index_of(s.drop_first(), id)
    }
}

/// When `id` occurs in `s`, `first_index_of` names the first occurrence.
pub proof fn lemma_first_index_of(s: Seq<ManagedWindow>, id: WindowId)
    requires
        has_id(s, id),
    ensures
        0 <= first_index_of(s, id) < s.len(),
        s[first_index_of(s, id)].id == id,
        forall|j: int| 0 <= j < first_index_of(s, id) ==> s[j].id != id,
    decreases s.len(),
{
    if s.len() == 0 {
    } else if s[0].id == id {
    } else {
        assert(has_id(s.drop_first(), id)) by {
            let i = choose|i: int| 0 <= i < s.len() && s[i].id == id;
            assert(s.drop_first()[i - 1] == s[i]);
        }
        lemma_first_index_of(s.drop_first(), id);
        assert forall|j: int| 0 <= j < first_index_of(s, id) implies s[j].id != id by {
            if j > 0 {
                assert(s.drop_first()[j - 1] == s[j]);
            }
        }
    }
}

/// A loop that found `s[i]` to be the first occurrence of `id` agrees with
/// `first_index_of`.
pub proof fn lemma_first_index_agrees(s: Seq<ManagedWindow>, id: WindowId, i: int)
    requires
        0 <= i < s.len(),
        s[i].id == id,
        forall|j: int| 0 <= j < i ==> s[j].id != id,
    ensures
        first_index_of(s, id) == i,
    decreases s.len(),
{
    if i == 0 {
    } else {
        assert(s.drop_first()[i - 1] == s[i]);
        assert(forall|j: int| 0 <= j < i - 1 ==> s.drop_first()[j] == s[j + 1]);
        lemma_first_index_agrees(s.drop_first(), id, i - 1);
    }
}

/// No two windows in `s` share an identity.
pub open spec fn ids_unique(s: Seq<ManagedWindow>) -> bool {
    forall|i: int, j: int| 0 <= i < j < s.len() ==> s[i].id != s[j].id
}

/// The predicate selecting windows shown on workspace `ws`: assigned to it
/// and not minimized.
pub open spec fn shown_pred(ws: u32) -> spec_fn(ManagedWindow) -> bool {
    |w: ManagedWindow| w.workspace == ws && w.spec_is_visible()
}

/// The predicate selecting the windows that survive removal of `id`.
pub open spec fn keep_pred(id: WindowId) -> spec_fn(ManagedWindow) -> bool {
    |w: ManagedWindow| w.id != id
}

/// The per-window effect of focusing `id`: the focused flag becomes whether
/// the window carries `id`; everything else is untouched.
pub open spec fn mark_focus(id: WindowId) -> spec_fn(ManagedWindow) -> ManagedWindow {
    |w: ManagedWindow| ManagedWindow { focused: w.id == id, ..w }
}

impl WmView {
    /// Whether a window is on the current workspace and not minimized.
    pub open spec fn window_shown(self, w: ManagedWindow) -> bool {
        w.workspace == self.current_workspace && w.spec_is_visible()
    }

    /// The windows of the current workspace that are not minimized, in
    /// recency order (oldest focused first).
    pub open spec fn visible_seq(self) -> Seq<ManagedWindow> {
        self.windows.filter(shown_pred(self.current_workspace))
    }

    /// The focus elected when the previous focus goes away: the most
    /// recently touched visible window of the current workspace, if any.
    pub open spec fn elected_focus(self) -> Option<WindowId> {
        if self.visible_seq().len() > 0 {
            Some(self.visible_seq().last().id)
        } else {
            None
        }
    }

    /// Registry well-formedness: identities are unique, a recorded focus
    /// refers to a present window, and the screen dimensions admit the
    /// geometry arithmetic (panel strip within the screen, coordinates
    /// representable as `i32`).
    pub open spec fn wf(self) -> bool {
        &&& ids_unique(self.windows)
        &&& match self.focused {
            Some(id) => has_id(self.windows, id),
            None => true,
        }
        &&& self.panel_height <= self.screen_height
        &&& self.screen_width <= 0x7fff_ffff
        &&& self.screen_height <= 0x7fff_ffff
    }
}

/// The geometry `g` centered in the usable screen area: the strip below the
/// panel, `screen_width` wide and `screen_height - panel_height` tall.
pub open spec fn centered_geometry(v: WmView, g: WindowGeometry) -> WindowGeometry {
    WindowGeometry {
        x: ((v.screen_width - g.width) / 2) as i32,
        y: (v.panel_height + (v.screen_height - v.panel_height - g.height) / 2) as i32,
        width: g.width,
        height: g.height,
    }
}

/// The registry after focusing `id`: every window's focused flag is set to
/// whether it carries `id`, the focus pointer records `id`, and the target
/// moves to the end of the sequence (becoming most recent / topmost). When
/// no window carries `id` the registry is unchanged.
pub open spec fn focus_transition(v: WmView, id: WindowId) -> WmView {
    if has_id(v.windows, id) {
        let marked = v.windows.map_values(mark_focus(id));
        let i = first_index_of(v.windows, id);
        WmView {
            windows: marked.remove(i).push(marked[i]),
            focused: Some(id),
            ..v
        }
    } else {
        v
    }
}

/// The registry after adding `w`: the window is assigned to the current
/// workspace, centered in the usable screen area, appended, and focused.
pub open spec fn add_transition(v: WmView, w: ManagedWindow) -> WmView {
    let placed = ManagedWindow {
        workspace: v.current_workspace,
        geometry: centered_geometry(v, w.geometry),
        ..w
    };
    focus_transition(WmView { windows: v.windows.push(placed), ..v }, w.id)
}

/// The registry after removing `id`: every window carrying `id` is dropped;
/// if the removed window was the focused one, focus passes to the most
/// recent remaining visible window of the current workspace (or to none).
pub open spec fn remove_transition(v: WmView, id: WindowId) -> WmView {
    let kept = WmView {
        windows: v.windows.filter(keep_pred(id)),
        ..v
    };
    if v.focused == Some(id) {
        WmView { focused: kept.elected_focus(), ..kept }
    } else {
        kept
    }
}

/// The registry after switching to workspace `ws`: the workspace changes and
/// focus is re-elected among the windows visible there.
pub open spec fn switch_transition(v: WmView, ws: u32) -> WmView {
    let moved = WmView { current_workspace: ws, ..v };
    WmView { focused: moved.elected_focus(), ..moved }
}

/// The registry after reassigning window `id` to workspace `ws`: only that
/// window's workspace tag changes; focus and order are untouched. Unknown
/// identities leave the registry unchanged.
pub open spec fn move_to_workspace_transition(v: WmView, id: WindowId, ws: u32) -> WmView {
    if has_id(v.windows, id) {
        let i = first_index_of(v.windows, id);
        WmView {
            windows: v.windows.update(i, ManagedWindow { workspace: ws, ..v.windows[i] }),
            ..v
        }
    } else {
        v
    }
}

/// Whether the focus pointer is set and refers to a present window.
pub open spec fn focused_present(v: WmView) -> bool {
    v.focused is Some && has_id(v.windows, v.focused.unwrap())
}

/// The focused window; meaningful only when `focused_present(v)` holds.
pub open spec fn focused_win(v: WmView) -> ManagedWindow {
    v.windows[first_index_of(v.windows, v.focused.unwrap())]
}

/// The registry with the focused window replaced by `nw` in place; the
/// registry unchanged when no focused window is present.
pub open spec fn update_focused(v: WmView, nw: ManagedWindow) -> WmView {
    if focused_present(v) {
        WmView {
            windows: v.windows.update(first_index_of(v.windows, v.focused.unwrap()), nw),
            ..v
        }
    } else {
        v
    }
}

/// Replacing the focused window in place preserves well-formedness, as long
/// as the replacement keeps its identity.
pub proof fn lemma_update_focused_wf(v: WmView, nw: ManagedWindow)
    requires
        v.wf(),
        focused_present(v) ==> nw.id == focused_win(v).id,
    ensures
        update_focused(v, nw).wf(),
{
    if focused_present(v) {
        let id = v.focused.unwrap();
        lemma_first_index_of(v.windows, id);
        let i = first_index_of(v.windows, id);
        let out = v.windows.update(i, nw);
        assert(forall|t: int| 0 <= t < out.len() ==> out[t].id == v.windows[t].id);
        assert(out[i].id == id);
        assert(has_id(out, id));
    }
}

/// The topmost window of `s` (scanning from the end) whose rectangle
/// contains the point, if any.
pub open spec fn last_containing(s: Seq<ManagedWindow>, x: int, y: int) -> Option<ManagedWindow>
    decreases s.len(),
{
    if s.len() == 0 {
        None
    } else if s.last().geometry.spec_contains_point(x, y) {
        Some(s.last())
    } else {
        last_containing(s.drop_last(), x, y)
    }
}

/// Filtering preserves uniqueness of window identities.
pub proof fn lemma_filter_ids_unique(s: Seq<ManagedWindow>, pred: spec_fn(ManagedWindow) -> bool)
    requires
        ids_unique(s),
    ensures
        ids_unique(s.filter(pred)),
    decreases s.len(),
{
    reveal(Seq::filter);
    if s.len() > 0 {
        let head = s.drop_last();
        assert(ids_unique(head));
        lemma_filter_ids_unique(head, pred);
        if pred(s.last()) {
            let f = head.filter(pred);
            let out = f.push(s.last());
            assert forall|a: int, b: int| 0 <= a < b < out.len() implies out[a].id != out[b].id by {
                if b < f.len() {
                } else {
                    lemma_filter_member(head, pred, a);
                    let j = choose|j: int| 0 <= j < head.len() && head[j] == f[a];
                    assert(s[j] == head[j]);
                    assert(s[j].id != s[s.len() - 1].id);
                }
            }
        }
    }
}

/// The identity of any element of a filtered sequence occurs in the
/// original sequence.
pub proof fn lemma_filter_has_id(
    s: Seq<ManagedWindow>,
    pred: spec_fn(ManagedWindow) -> bool,
    i: int,
)
    requires
        0 <= i < s.filter(pred).len(),
    ensures
        has_id(s, s.filter(pred)[i].id),
{
    lemma_filter_member(s, pred, i);
    let j = choose|j: int| 0 <= j < s.len() && s[j] == s.filter(pred)[i];
    assert(s[j].id == s.filter(pred)[i].id);
}

/// An identity whose windows all satisfy the predicate stays present after
/// the filter.
pub proof fn lemma_filter_keeps_id(
    s: Seq<ManagedWindow>,
    pred: spec_fn(ManagedWindow) -> bool,
    id: WindowId,
)
    requires
        has_id(s, id),
        forall|i: int| 0 <= i < s.len() && s[i].id == id ==> pred(s[i]),
    ensures
        has_id(s.filter(pred), id),
{
    let i = choose|i: int| 0 <= i < s.len() && s[i].id == id;
    s.lemma_filter_contains(pred, i);
    let k = choose|k: int| 0 <= k < s.filter(pred).len() && s.filter(pred)[k] == s[i];
    assert(s.filter(pred)[k].id == id);
}

/// Focusing preserves registry well-formedness.
pub proof fn lemma_focus_preserves_wf(v: WmView, id: WindowId)
    requires
        v.wf(),
    ensures
        focus_transition(v, id).wf(),
{
    if has_id(v.windows, id) {
        let marked = v.windows.map_values(mark_focus(id));
        let i = first_index_of(v.windows, id);
        lemma_first_index_of(v.windows, id);
        let out = marked.remove(i).push(marked[i]);
        let n = v.windows.len() as int;
        assert(out.len() == n);
        assert(forall|t: int| 0 <= t < n ==> marked[t].id == v.windows[t].id);
        assert forall|a: int, b: int| 0 <= a < b < n implies out[a].id != out[b].id by {
            let oa = if a < i { a } else { a + 1 };
            if b == n - 1 {
                assert(out[a] == marked[oa]);
                assert(out[b] == marked[i]);
                assert(oa != i);
            } else {
                let ob = if b < i { b } else { b + 1 };
                assert(out[a] == marked[oa]);
                assert(out[b] == marked[ob]);
                assert(oa != ob);
            }
        }
        assert(out[n - 1] == marked[i]);
        assert(out[n - 1].id == id);
        assert(has_id(out, id));
    }
}

/// Adding a window with a fresh identity preserves registry
/// well-formedness: afterwards the focused identity still refers to a
/// present window.
pub proof fn lemma_add_preserves_wf(v: WmView, w: ManagedWindow)
    requires
        v.wf(),
        !has_id(v.windows, w.id),
    ensures
        add_transition(v, w).wf(),
{
    let placed = ManagedWindow {
        workspace: v.current_workspace,
        geometry: centered_geometry(v, w.geometry),
        ..w
    };
    let pushed = v.windows.push(placed);
    assert forall|a: int, b: int| 0 <= a < b < pushed.len() implies pushed[a].id != pushed[b].id by {
        if b == pushed.len() - 1 {
            assert(pushed[a] == v.windows[a]);
        }
    }
    match v.focused {
        Some(fid) => {
            let fi = choose|fi: int| 0 <= fi < v.windows.len() && v.windows[fi].id == fid;
            assert(pushed[fi].id == fid);
        },
        None => {},
    }
    lemma_focus_preserves_wf(WmView { windows: pushed, ..v }, w.id);
}

/// Removing a window preserves registry well-formedness: the re-elected
/// focused identity (if any) refers to a window still present.
pub proof fn lemma_remove_preserves_wf(v: WmView, id: WindowId)
    requires
        v.wf(),
    ensures
        remove_transition(v, id).wf(),
{
    lemma_filter_ids_unique(v.windows, keep_pred(id));
    let kept = WmView { windows: v.windows.filter(keep_pred(id)), ..v };
    if v.focused == Some(id) {
        match kept.elected_focus() {
            Some(eid) => {
                lemma_filter_has_id(kept.windows, shown_pred(kept.current_workspace),
                    kept.visible_seq().len() - 1);
            },
            None => {},
        }
    } else {
        match v.focused {
            Some(fid) => {
                lemma_filter_keeps_id(v.windows, keep_pred(id), fid);
            },
            None => {},
        }
    }
}

/// Focusing is idempotent: focusing the same identity twice in a row leaves
/// exactly the state reached by focusing it once, ordering included.
pub proof fn lemma_focus_idempotent(v: WmView, id: WindowId)
    requires
        v.wf(),
    ensures
        focus_transition(focus_transition(v, id), id) == focus_transition(v, id),
{
    if has_id(v.windows, id) {
        let marked = v.windows.map_values(mark_focus(id));
        let i = first_index_of(v.windows, id);
        lemma_first_index_of(v.windows, id);
        let out = marked.remove(i).push(marked[i]);
        let n = v.windows.len() as int;
        let v1 = focus_transition(v, id);
        assert(v1.windows == out);
        assert(out[n - 1].id == id);
        assert(has_id(out, id));
        assert forall|t: int| 0 <= t < n - 1 implies out[t].id != id by {
            let ot = if t < i { t } else { t + 1 };
            assert(out[t] == marked[ot]);
            assert(marked[ot].id == v.windows[ot].id);
            assert(v.windows[i].id == id);
        }
        lemma_first_index_agrees(out, id, n - 1);
        let marked2 = out.map_values(mark_focus(id));
        assert forall|t: int| 0 <= t < n implies marked2[t] == out[t] by {
            let ot = if t < i { t } else if t < n - 1 { t + 1 } else { i };
            assert(out[t] == marked[ot]);
            assert(marked[ot] == mark_focus(id)(v.windows[ot]));
        }
        assert(marked2 =~= out);
        assert(marked2.remove(n - 1).push(marked2[n - 1]) =~= out);
        assert(focus_transition(v1, id) =~= v1);
    }
}

/// Hit-testing prefers the most recently focused window: after focusing a
/// visible window of the current workspace whose rectangle contains the
/// point, that window is the one `window_at_point` reports there.
pub proof fn lemma_at_point_prefers_focused(v: WmView, id: WindowId, x: int, y: int)
    requires
        v.wf(),
        has_id(v.windows, id),
        v.windows[first_index_of(v.windows, id)].workspace == v.current_workspace,
        v.windows[first_index_of(v.windows, id)].spec_is_visible(),
        v.windows[first_index_of(v.windows, id)].geometry.spec_contains_point(x, y),
    ensures
        ({
            let v1 = focus_transition(v, id);
            last_containing(v1.visible_seq(), x, y) == Some(v1.windows.last())
                && v1.windows.last().id == id
        }),
{
    let marked = v.windows.map_values(mark_focus(id));
    let i = first_index_of(v.windows, id);
    lemma_first_index_of(v.windows, id);
    let v1 = focus_transition(v, id);
    let tail = v1.windows.last();
    assert(tail == marked[i]);
    assert(tail.workspace == v.windows[i].workspace && tail.state == v.windows[i].state
        && tail.geometry == v.windows[i].geometry);
    assert(v1.windows =~= v1.windows.drop_last().push(tail));
    lemma_filter_push(v1.windows.drop_last(), tail, shown_pred(v1.current_workspace));
    assert(v1.visible_seq() == v1.windows.drop_last().filter(shown_pred(
        v1.current_workspace)).push(tail));
    assert(v1.visible_seq().last() == tail);
}

/// Removing the focused window elects as new focus the identity of the last
/// remaining visible window of the current workspace, or none when that set
/// is empty.
pub proof fn lemma_remove_focused_elects(v: WmView, id: WindowId)
    requires
        v.wf(),
        v.focused == Some(id),
    ensures
        ({
            let kept = WmView { windows: v.windows.filter(keep_pred(id)), ..v };
            remove_transition(v, id).focused == if kept.visible_seq().len() > 0 {
                Some(kept.visible_seq().last().id)
            } else {
                None
            }
        }),
{
}

/// The registry that owns the ordered window collection. All access from
/// outside goes through identity-based lookup; the collection order doubles
/// as the focus-recency stack and the stacking order for hit-testing.
pub struct WindowManager {
    windows: Vec<ManagedWindow>,
    focused_window: Option<WindowId>,
    current_workspace: u32,
    screen_width: u32,
    screen_height: u32,
    panel_height: u32,
}

impl View for WindowManager {
    type V = WmView;

    closed spec fn view(&self) -> WmView {
        WmView {
            windows: self.windows@,
            focused: self.focused_window,
            current_workspace: self.current_workspace,
            screen_width: self.screen_width,
            screen_height: self.screen_height,
            panel_height: self.panel_height,
        }
    }
}

impl WindowManager {
    /// An empty registry on workspace 1 with the given screen dimensions.
    pub fn new(screen_width: u32, screen_height: u32, panel_height: u32) -> (wm: WindowManager)
        requires
            panel_height <= screen_height,
            screen_width <= 0x7fff_ffff,
            screen_height <= 0x7fff_ffff,
        ensures
            wm@ == (WmView {
                windows: Seq::<ManagedWindow>::empty(),
                focused: None::<WindowId>,
                current_workspace: 1u32,
                screen_width,
                screen_height,
                panel_height,
            }),
            wm@.wf(),
    {
        let wm = WindowManager {
            windows: Vec::new(),
            focused_window: None,
            current_workspace: 1,
            screen_width,
            screen_height,
            panel_height,
        };
        proof {
            assert(wm@.windows =~= Seq::<ManagedWindow>::empty());
        }
        wm
    }

    pub fn current_workspace(&self) -> (ws: u32)
        ensures
            ws == self@.current_workspace,
    {
        self.current_workspace
    }

    /// Updates the stored screen dimensions; existing windows are not
    /// repositioned.
    pub fn update_screen_size(&mut self, width: u32, height: u32)
        requires
            old(self)@.panel_height <= height,
            width <= 0x7fff_ffff,
            height <= 0x7fff_ffff,
        ensures
            final(self)@ == (WmView { screen_width: width, screen_height: height, ..old(self)@ }),
    {
        self.screen_width = width;
        self.screen_height = height;
    }

    /// The whole collection in recency order.
    pub fn all_windows(&self) -> (r: &[ManagedWindow])
        ensures
            r@ == self@.windows,
    {
        self.windows.as_slice()
    }

    /// Looks a window up by identity (the first occurrence, which under
    /// well-formedness is the only one).
    pub fn get_window(&self, id: WindowId) -> (r: Option<&ManagedWindow>)
        ensures
            match r {
                Some(w) => has_id(self@.windows, id) && *w == self@.windows[first_index_of(
                    self@.windows, id)],
                None => !has_id(self@.windows, id),
            },
    {
        let n = self.windows.len();
        let mut i: usize = 0;
        while i < n
            invariant
                n == self.windows.len(),
                0 <= i <= n,
                forall|j: int| 0 <= j < i ==> self.windows@[j].id != id,
            decreases n - i,
        {
            if self.windows[i].id == id {
                proof {
                    lemma_first_index_agrees(self@.windows, id, i as int);
                }
                return Some(&self.windows[i]);
            }
            i = i + 1;
        }
        None
    }

    /// Focuses the window carrying `id`: clears every other focused flag,
    /// records the focus pointer and moves the target to the end of the
    /// collection, making it the most recent and topmost window. A no-op
    /// when no window carries `id`.
    pub fn focus_window(&mut self, id: WindowId)
        requires
            old(self)@.wf(),
        ensures
            final(self)@ == focus_transition(old(self)@, id),
            final(self)@.wf(),
    {
        let ghost v0 = self@;
        proof {
            lemma_focus_preserves_wf(v0, id);
        }
        let n = self.windows.len();
        let mut i: usize = 0;
        let mut found: Option<usize> = None;
        while i < n
            invariant
                self@ == v0,
                n == self.windows.len(),
                0 <= i <= n,
                match found {
                    Some(k) => 0 <= k < n && v0.windows[k as int].id == id && first_index_of(
                        v0.windows, id) == k as int,
                    None => forall|j: int| 0 <= j < i ==> v0.windows[j].id != id,
                },
            decreases n - i,
        {
            if found.is_none() && self.windows[i].id == id {
                proof {
                    lemma_first_index_agrees(v0.windows, id, i as int);
                }
                found = Some(i);
            }
            i = i + 1;
        }
        match found {
            None => {
                proof {
                    assert(!has_id(v0.windows, id));
                }
            },
            Some(k) => {
                let mut marked: Vec<ManagedWindow> = Vec::new();
                let mut j: usize = 0;
                while j < n
                    invariant
                        self@ == v0,
                        n == self.windows.len(),
                        0 <= j <= n,
                        marked@.len() == j,
                        forall|t: int| 0 <= t < j ==> marked@[t] == mark_focus(id)(v0.windows[t]),
                    decreases n - j,
                {
                    let mut w = self.windows[j].clone();
                    w.focused = w.id == id;
                    marked.push(w);
                    j = j + 1;
                }
                proof {
                    assert(marked@ =~= v0.windows.map_values(mark_focus(id)));
                }
                let target = marked.remove(k);
                marked.push(target);
                self.windows = marked;
                self.focused_window = Some(id);
                proof {
                    assert(v0.windows[k as int].id == id);
                    assert(has_id(v0.windows, id));
                    assert(final(self)@ =~= focus_transition(v0, id));
                }
            },
        }
    }

    /// Adds a window: it is assigned to the current workspace, centered in
    /// the usable screen area (the strip below the panel), appended to the
    /// collection and focused.
    pub fn add_window(&mut self, window: ManagedWindow)
        requires
            old(self)@.wf(),
            !has_id(old(self)@.windows, window.id),
            window.geometry.width <= old(self)@.screen_width,
            window.geometry.height <= old(self)@.screen_height - old(self)@.panel_height,
        ensures
            final(self)@ == add_transition(old(self)@, window),
            final(self)@.wf(),
    {
        let ghost v0 = self@;
        let id = window.id;
        let mut w = window;
        w.workspace = self.current_workspace;
        let available_height = self.screen_height - self.panel_height;
        w.geometry.x = ((self.screen_width - w.geometry.width) / 2) as i32;
        w.geometry.y = (self.panel_height + (available_height - w.geometry.height) / 2) as i32;
        proof {
            assert(w == (ManagedWindow {
                workspace: v0.current_workspace,
                geometry: centered_geometry(v0, window.geometry),
                ..window
            }));
        }
        self.windows.push(w);
        proof {
            let pushed = v0.windows.push(w);
            assert forall|a: int, b: int|
                0 <= a < b < pushed.len() implies pushed[a].id != pushed[b].id by {
                if b == pushed.len() - 1 {
                    assert(pushed[a] == v0.windows[a]);
                }
            }
            assert(ids_unique(pushed));
            match v0.focused {
                Some(fid) => {
                    let fi = choose|fi: int| 0 <= fi < v0.windows.len() && v0.windows[fi].id
                        == fid;
                    assert(pushed[fi].id == fid);
                    assert(has_id(pushed, fid));
                },
                None => {},
            }
            assert(self@.wf());
        }
        self.focus_window(id);
    }

    /// The most recently touched visible window of the current workspace,
    /// found by scanning the collection from its recent end.
    fn elect_focus(&self) -> (r: Option<WindowId>)
        ensures
            r == self@.elected_focus(),
    {
        let ghost ws = self@.current_workspace;
        let n = self.windows.len();
        proof {
            assert(self@.windows.subrange(0, n as int) =~= self@.windows);
        }
        let mut i: usize = n;
        while i > 0
            invariant
                0 <= i <= n,
                n == self.windows.len(),
                ws == self@.current_workspace,
                self@.visible_seq() == self@.windows.subrange(0, i as int).filter(shown_pred(ws)),
            decreases i,
        {
            let idx = i - 1;
            proof {
                assert(self@.windows.subrange(0, idx + 1) =~= self@.windows.subrange(0,
                    idx as int).push(self@.windows[idx as int]));
                lemma_filter_push(self@.windows.subrange(0, idx as int),
                    self@.windows[idx as int], shown_pred(ws));
            }
            let w = &self.windows[idx];
            if w.workspace == self.current_workspace && w.is_visible() {
                return Some(w.id);
            }
            i = idx;
        }
        proof {
            reveal(Seq::filter);
            assert(self@.windows.subrange(0, 0) =~= Seq::<ManagedWindow>::empty());
            assert(self@.visible_seq().len() == 0);
        }
        None
    }

    /// Removes the window carrying `id` (a no-op on unknown identities).
    /// If the removed window was focused, focus passes to the most recent
    /// remaining visible window of the current workspace, or to none.
    pub fn remove_window(&mut self, id: WindowId)
        requires
            old(self)@.wf(),
        ensures
            final(self)@ == remove_transition(old(self)@, id),
            final(self)@.wf(),
    {
        let ghost v0 = self@;
        let n = self.windows.len();
        let mut kept: Vec<ManagedWindow> = Vec::new();
        let mut i: usize = 0;
        while i < n
            invariant
                self@ == v0,
                n == self.windows.len(),
                0 <= i <= n,
                kept@ == v0.windows.subrange(0, i as int).filter(keep_pred(id)),
            decreases n - i,
        {
            proof {
                assert(v0.windows.subrange(0, i + 1) =~= v0.windows.subrange(0, i as int).push(
                    v0.windows[i as int]));
                lemma_filter_push(v0.windows.subrange(0, i as int), v0.windows[i as int],
                    keep_pred(id));
            }
            if !(self.windows[i].id == id) {
                let w = self.windows[i].clone();
                kept.push(w);
            }
            i = i + 1;
        }
        proof {
            assert(v0.windows.subrange(0, n as int) =~= v0.windows);
            assert(kept@ == v0.windows.filter(keep_pred(id)));
        }
        self.windows = kept;
        let refocus = match self.focused_window {
            Some(fid) => fid == id,
            None => false,
        };
        if refocus {
            let e = self.elect_focus();
            self.focused_window = e;
        }
        proof {
            lemma_filter_ids_unique(v0.windows, keep_pred(id));
            let keptv = WmView { windows: v0.windows.filter(keep_pred(id)), ..v0 };
            if refocus {
                match keptv.elected_focus() {
                    Some(eid) => {
                        lemma_filter_has_id(keptv.windows, shown_pred(keptv.current_workspace),
                            keptv.visible_seq().len() - 1);
                    },
                    None => {},
                }
            } else {
                match v0.focused {
                    Some(fid) => {
                        lemma_filter_keeps_id(v0.windows, keep_pred(id), fid);
                    },
                    None => {},
                }
            }
            assert(final(self)@ =~= remove_transition(v0, id));
        }
    }

    /// Switches the current workspace and re-elects focus among the windows
    /// visible there.
    pub fn switch_workspace(&mut self, workspace: u32)
        requires
            old(self)@.wf(),
        ensures
            final(self)@ == switch_transition(old(self)@, workspace),
            final(self)@.wf(),
    {
        let ghost v0 = self@;
        self.current_workspace = workspace;
        let e = self.elect_focus();
        self.focused_window = e;
        proof {
            let moved = WmView { current_workspace: workspace, ..v0 };
            match moved.elected_focus() {
                Some(eid) => {
                    lemma_filter_has_id(moved.windows, shown_pred(workspace),
                        moved.visible_seq().len() - 1);
                },
                None => {},
            }
            assert(final(self)@ =~= switch_transition(v0, workspace));
        }
    }

    /// Reassigns the window carrying `id` to workspace `workspace`; focus,
    /// geometry and order are untouched. A no-op on unknown identities.
    pub fn move_window_to_workspace(&mut self, id: WindowId, workspace: u32)
        requires
            old(self)@.wf(),
        ensures
            final(self)@ == move_to_workspace_transition(old(self)@, id, workspace),
            final(self)@.wf(),
    {
        let ghost v0 = self@;
        let n = self.windows.len();
        let mut i: usize = 0;
        while i < n
            invariant
                self@ == v0,
                v0 == old(self)@,
                v0.wf(),
                n == self.windows.len(),
                0 <= i <= n,
                forall|j: int| 0 <= j < i ==> v0.windows[j].id != id,
            decreases n - i,
        {
            if self.windows[i].id == id {
                proof {
                    lemma_first_index_agrees(v0.windows, id, i as int);
                }
                let mut w = self.windows[i].clone();
                w.workspace = workspace;
                let updated = &mut self.windows[i];
                *updated = w;
                proof {
                    assert(v0.windows[i as int].id == id);
                    assert(has_id(v0.windows, id));
                    assert(self@ =~= move_to_workspace_transition(v0, id, workspace));
                    assert forall|a: int, b: int|
                        0 <= a < b < self@.windows.len() implies self@.windows[a].id
                        != self@.windows[b].id by {
                        assert(self@.windows[a].id == v0.windows[a].id);
                        assert(self@.windows[b].id == v0.windows[b].id);
                    }
                    match v0.focused {
                        Some(fid) => {
                            assert(has_id(v0.windows, fid));
                            let fi = choose|fi: int|
                                0 <= fi < v0.windows.len() && v0.windows[fi].id == fid;
                            assert(self@.windows[fi].id == fid);
                            assert(has_id(self@.windows, fid));
                        },
                        None => {},
                    }
                }
                return ;
            }
            i = i + 1;
        }
        proof {
            assert(!has_id(v0.windows, id));
        }
    }

    /// The visible windows of the current workspace, in recency order
    /// (oldest focused first).
    pub fn visible_windows(&self) -> (r: Vec<ManagedWindow>)
        ensures
            r@ == self@.visible_seq(),
    {
        let ghost ws = self@.current_workspace;
        let n = self.windows.len();
        let mut out: Vec<ManagedWindow> = Vec::new();
        let mut i: usize = 0;
        while i < n
            invariant
                0 <= i <= n,
                n == self.windows.len(),
                ws == self@.current_workspace,
                out@ == self@.windows.subrange(0, i as int).filter(shown_pred(ws)),
            decreases n - i,
        {
            proof {
                assert(self@.windows.subrange(0, i + 1) =~= self@.windows.subrange(0,
                    i as int).push(self@.windows[i as int]));
                lemma_filter_push(self@.windows.subrange(0, i as int), self@.windows[i as int],
                    shown_pred(ws));
            }
            let w = &self.windows[i];
            if w.workspace == self.current_workspace && w.is_visible() {
                let c = self.windows[i].clone();
                out.push(c);
            }
            i = i + 1;
        }
        proof {
            assert(self@.windows.subrange(0, n as int) =~= self@.windows);
        }
        out
    }

    /// Hit-tests the point against the visible windows of the current
    /// workspace, topmost (most recently focused) first.
    pub fn window_at_point(&self, x: i32, y: i32) -> (r: Option<&ManagedWindow>)
        ensures
            match r {
                Some(w) => last_containing(self@.visible_seq(), x as int, y as int) == Some(*w),
                None => last_containing(self@.visible_seq(), x as int, y as int) is None,
            },
    {
        let ghost ws = self@.current_workspace;
        let n = self.windows.len();
        proof {
            assert(self@.windows.subrange(0, n as int) =~= self@.windows);
        }
        let mut i: usize = n;
        while i > 0
            invariant
                0 <= i <= n,
                n == self.windows.len(),
                ws == self@.current_workspace,
                last_containing(self@.visible_seq(), x as int, y as int) == last_containing(
                    self@.windows.subrange(0, i as int).filter(shown_pred(ws)), x as int,
                    y as int),
            decreases i,
        {
            let idx = i - 1;
            proof {
                assert(self@.windows.subrange(0, idx + 1) =~= self@.windows.subrange(0,
                    idx as int).push(self@.windows[idx as int]));
                lemma_filter_push(self@.windows.subrange(0, idx as int),
                    self@.windows[idx as int], shown_pred(ws));
            }
            let w = &self.windows[idx];
            if w.workspace == self.current_workspace && w.is_visible() {
                let ghost f = self@.windows.subrange(0, idx as int).filter(shown_pred(ws));
                proof {
                    assert(f.push(self@.windows[idx as int]).drop_last() =~= f);
                }
                if w.geometry.contains_point(x, y) {
                    return Some(&self.windows[idx]);
                }
            }
            i = idx;
        }
        proof {
            reveal(Seq::filter);
            assert(self@.windows.subrange(0, 0) =~= Seq::<ManagedWindow>::empty());
        }
        None
    }

    /// The window the focus pointer refers to, if it is set and current.
    pub fn focused_window(&self) -> (r: Option<&ManagedWindow>)
        ensures
            match self@.focused {
                None => r is None,
                Some(id) => match r {
                    Some(w) => has_id(self@.windows, id) && *w == self@.windows[first_index_of(
                        self@.windows, id)],
                    None => !has_id(self@.windows, id),
                },
            },
    {
        match self.focused_window {
            Some(id) => self.get_window(id),
            None => None,
        }
    }

    /// Whether some window carries `id`.
    pub fn has_window(&self, id: WindowId) -> (r: bool)
        ensures
            r == has_id(self@.windows, id),
    {
        match self.get_window(id) {
            Some(_) => true,
            None => false,
        }
    }

    /// The identity the focus pointer records, if any.
    pub fn focused_id(&self) -> (r: Option<WindowId>)
        ensures
            r == self@.focused,
    {
        self.focused_window
    }

    /// Mutable lookup by identity (the first occurrence, which under
    /// well-formedness is the only one). The caller's writes through the
    /// returned reference land at that position in the collection.
    pub fn get_window_mut(&mut self, id: WindowId) -> (w: &mut ManagedWindow)
        requires
            has_id(old(self)@.windows, id),
        ensures
            *w == old(self)@.windows[first_index_of(old(self)@.windows, id)],
            final(self)@ == (WmView {
                windows: old(self)@.windows.update(first_index_of(old(self)@.windows, id),
                    *final(w)),
                ..old(self)@
            }),
    {
        let ghost v0 = self@;
        let n = self.windows.len();
        let mut i: usize = 0;
        let mut found: Option<usize> = None;
        while i < n
            invariant
                self@ == v0,
                n == self.windows.len(),
                0 <= i <= n,
                match found {
                    Some(k) => 0 <= k < n && first_index_of(v0.windows, id) == k as int,
                    None => forall|j: int| 0 <= j < i ==> v0.windows[j].id != id,
                },
            decreases n - i,
        {
            if found.is_none() && self.windows[i].id == id {
                proof {
                    lemma_first_index_agrees(v0.windows, id, i as int);
                }
                found = Some(i);
            }
            i = i + 1;
        }
        let k = match found {
            Some(k) => k,
            None => {
                proof {
                    assert(!has_id(v0.windows, id));
                    assert(false);
                }
                unreached()
            },
        };
        &mut self.windows[k]
    }

    /// Mutable access to the focused window. The focus pointer must be set,
    /// and under well-formedness it refers to a present window.
    pub fn focused_window_mut(&mut self) -> (w: &mut ManagedWindow)
        requires
            old(self)@.wf(),
            old(self)@.focused is Some,
        ensures
            *w == old(self)@.windows[first_index_of(old(self)@.windows,
                old(self)@.focused.unwrap())],
            final(self)@ == (WmView {
                windows: old(self)@.windows.update(first_index_of(old(self)@.windows,
                    old(self)@.focused.unwrap()), *final(w)),
                ..old(self)@
            }),
    {
        let id = match self.focused_window {
            Some(id) => id,
            None => {
                proof {
                    assert(false);
                }
                unreached()
            },
        };
        self.get_window_mut(id)
    }
}

} // verus!
