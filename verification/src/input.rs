//! Input handling: key-combination parsing, action parsing, the keybinding
//! table with its exact-set matching, held-modifier tracking, and the
//! pointer/drag state.

use vstd::prelude::*;
use vstd::set_lib::lemma_subset_equality;
use crate::text::{
    eq_ignore_ascii_case, parse_u32, parse_u32_spec, split_on, split_rec, str_eq,
    str_eq_ignore_ascii_case,
};

verus! {

/// A keyboard modifier.
#[derive(Clone, Copy, Debug, PartialEq, Eq, Hash, Structural)]
pub enum Modifier {
    Shift,
    Control,
    Alt,
    Super,
}

/// The modifier a key-combination token denotes, if any. `Control`/`Ctrl`,
/// `Alt`/`Mod1` and `Super`/`Mod4` are synonyms; unrecognized tokens denote
/// nothing and are dropped.
pub open spec fn modifier_of_token(t: Seq<char>) -> Option<Modifier> {
    if t == "Shift"@ {
        Some(Modifier::Shift)
    } else if t == "Control"@ || t == "Ctrl"@ {
        Some(Modifier::Control)
    } else if t == "Alt"@ || t == "Mod1"@ {
        Some(Modifier::Alt)
    } else if t == "Super"@ || t == "Mod4"@ {
        Some(Modifier::Super)
    } else {
        None
    }
}

/// The modifiers denoted by a token list, in order, unrecognized tokens
/// dropped.
pub open spec fn modifiers_of_tokens(toks: Seq<Seq<char>>) -> Seq<Modifier>
    decreases toks.len(),
{
    if toks.len() == 0 {
        Seq::empty()
    } else {
        let rest = modifiers_of_tokens(toks.drop_last());
        match modifier_of_token(toks.last()) {
            Some(m) => rest.push(m),
            None => rest,
        }
    }
}

/// The abstract value of a key combination: a modifier sequence and the key
/// name. Matching and equality treat the modifiers as a set.
#[verifier::ext_equal]
pub ghost struct ComboView {
    pub mods: Seq<Modifier>,
    pub key: Seq<char>,
}

/// A set of modifiers plus a single key symbol, built by parsing a
/// `+`-delimited string whose last token is the key.
#[derive(Debug)]
pub struct KeyCombination {
    pub modifiers: Vec<Modifier>,
    pub key: String,
}

impl View for KeyCombination {
    type V = ComboView;

    open spec fn view(&self) -> ComboView {
        ComboView { mods: self.modifiers@, key: self.key@ }
    }
}

impl Clone for KeyCombination {
    fn clone(&self) -> (r: Self)
        ensures
            r@ == self@,
    {
        KeyCombination { modifiers: self.modifiers.clone(), key: self.key.clone() }
    }
}

/// The combination a combo string denotes: all tokens but the last are
/// modifier names (unrecognized ones silently dropped), the last token is
/// the key, compared case-sensitively at match time.
pub open spec fn combo_of_string(s: Seq<char>) -> ComboView {
    ComboView {
        mods: modifiers_of_tokens(split_on(s, '+').drop_last()),
        key: split_on(s, '+').last(),
    }
}

/// Whether the combination fires for the given held modifiers and pressed
/// key: the key matches exactly and the held set equals the combination's
/// modifier set — both membership and size, so extra held modifiers prevent
/// the match.
pub open spec fn combo_matches(c: ComboView, held: Seq<Modifier>, key: Seq<char>) -> bool {
    &&& c.key == key
    &&& forall|i: int| 0 <= i < c.mods.len() ==> held.contains(c.mods[i])
    &&& c.mods.len() == held.len()
}

/// Whether a slice of modifiers contains `m`.
pub fn contains_modifier(mods: &[Modifier], m: Modifier) -> (r: bool)
    ensures
        r == mods@.contains(m),
{
    let n = mods.len();
    let mut i: usize = 0;
    while i < n
        invariant
            n == mods@.len(),
            0 <= i <= n,
            forall|j: int| 0 <= j < i ==> mods@[j] != m,
        decreases n - i,
    {
        if mods[i] == m {
            return true;
        }
        i = i + 1;
    }
    false
}

impl KeyCombination {
    pub fn new(modifiers: Vec<Modifier>, key: String) -> (c: KeyCombination)
        ensures
            c@ == (ComboView { mods: modifiers@, key: key@ }),
    {
        KeyCombination { modifiers, key }
    }

    /// Parses a `+`-delimited combo string: every token before the last
    /// names a modifier (unrecognized ones are silently dropped), the last
    /// token is the key. Every string parses.
    pub fn from_string(s: &str) -> (r: Option<KeyCombination>)
        ensures
            r is Some,
            r.unwrap()@ == combo_of_string(s@),
    {
        let n = s.unicode_len();
        let mut modifiers: Vec<Modifier> = Vec::new();
        let ghost mut done: Seq<Seq<char>> = Seq::empty();
        let mut start: usize = 0;
        let mut i: usize = 0;
        proof {
            assert(s@.skip(0) =~= s@);
            assert(s@.subrange(0, 0) =~= Seq::<char>::empty());
            assert(Seq::<Seq<char>>::empty() + split_rec(s@, '+', Seq::<char>::empty())
                =~= split_rec(s@, '+', Seq::<char>::empty()));
            assert(modifiers@ =~= Seq::<Modifier>::empty());
        }
        while i < n
            invariant
                n == s@.len(),
                0 <= start <= i <= n,
                split_on(s@, '+') == done + split_rec(s@.skip(i as int), '+', s@.subrange(
                    start as int, i as int)),
                modifiers@ == modifiers_of_tokens(done),
            decreases n - i,
        {
            let c = s.get_char(i);
            proof {
                assert(s@.skip(i as int)[0] == s@[i as int]);
                assert(s@.skip(i as int).drop_first() =~= s@.skip(i as int + 1));
                assert(s@.subrange(start as int, i as int).push(s@[i as int]) =~= s@.subrange(
                    start as int, i as int + 1));
            }
            if c == '+' {
                let tok = s.substring_char(start, i);
                if str_eq(tok, "Shift") {
                    modifiers.push(Modifier::Shift);
                } else if str_eq(tok, "Control") || str_eq(tok, "Ctrl") {
                    modifiers.push(Modifier::Control);
                } else if str_eq(tok, "Alt") || str_eq(tok, "Mod1") {
                    modifiers.push(Modifier::Alt);
                } else if str_eq(tok, "Super") || str_eq(tok, "Mod4") {
                    modifiers.push(Modifier::Super);
                }
                proof {
                    let cur = s@.subrange(start as int, i as int);
                    let done0 = done;
                    done = done0.push(cur);
                    assert(done.drop_last() =~= done0);
                    assert(done.last() == cur);
                    assert(done0 + (seq![cur] + split_rec(s@.skip(i as int + 1), '+',
                        Seq::<char>::empty())) =~= done + split_rec(s@.skip(i as int + 1), '+',
                        Seq::<char>::empty()));
                    assert(s@.subrange(i as int + 1, i as int + 1) =~= Seq::<char>::empty());
                }
                start = i + 1;
            }
            i = i + 1;
        }
        let key_s = s.substring_char(start, n);
        let key = key_s.to_owned();
        proof {
            assert(s@.skip(n as int) =~= Seq::<char>::empty());
            let toks = split_on(s@, '+');
            assert(toks == done + seq![s@.subrange(start as int, n as int)]);
            assert(toks.drop_last() =~= done);
            assert(toks.last() == s@.subrange(start as int, n as int));
        }
        Some(KeyCombination { modifiers, key })
    }

    /// Whether this combination fires for the held modifiers and pressed
    /// key: exact-set matching over the modifiers, exact key equality.
    pub fn matches(&self, modifiers: &[Modifier], key: &str) -> (r: bool)
        ensures
            r == combo_matches(self@, modifiers@, key@),
    {
        if !str_eq(self.key.as_str(), key) {
            return false;
        }
        let n = self.modifiers.len();
        let mut i: usize = 0;
        while i < n
            invariant
                n == self.modifiers@.len(),
                0 <= i <= n,
                forall|j: int| 0 <= j < i ==> modifiers@.contains(self.modifiers@[j]),
            decreases n - i,
        {
            if !contains_modifier(modifiers, self.modifiers[i]) {
                return false;
            }
            i = i + 1;
        }
        self.modifiers.len() == modifiers.len()
    }
}

/// Matching is exact-set: for duplicate-free modifier lists, a combination
/// fires exactly when the key matches and the held modifiers are — as a set
/// — precisely the combination's modifiers. In particular a binding with
/// modifiers `{Super}` does not fire while `{Super, Shift}` is held.
pub proof fn lemma_exact_set_matching(c: ComboView, held: Seq<Modifier>, key: Seq<char>)
    requires
        c.mods.no_duplicates(),
        held.no_duplicates(),
    ensures
        combo_matches(c, held, key) <==> (c.key == key && c.mods.to_set() == held.to_set()),
{
    broadcast use vstd::seq_lib::seq_to_set_is_finite;

    c.mods.unique_seq_to_set();
    held.unique_seq_to_set();
    if combo_matches(c, held, key) {
        assert forall|m: Modifier| c.mods.to_set().contains(m) implies held.to_set().contains(
            m) by {
            let i = choose|i: int| 0 <= i < c.mods.len() && c.mods[i] == m;
        }
        lemma_subset_equality(c.mods.to_set(), held.to_set());
        assert(c.mods.to_set() == held.to_set());
    }
    if c.key == key && c.mods.to_set() == held.to_set() {
        assert forall|i: int| 0 <= i < c.mods.len() implies held.contains(c.mods[i]) by {
            assert(c.mods.to_set().contains(c.mods[i]));
        }
        assert(c.mods.len() == held.len());
    }
}

/// A direction argument of a focus/move/resize action.
#[derive(Clone, Copy, Debug, PartialEq, Eq, Structural)]
pub enum Direction {
    Left,
    Right,
    Up,
    Down,
}

/// The direction a name denotes, compared ignoring ASCII case.
pub open spec fn direction_of_string(s: Seq<char>) -> Option<Direction> {
    if eq_ignore_ascii_case(s, "left"@) {
        Some(Direction::Left)
    } else if eq_ignore_ascii_case(s, "right"@) {
        Some(Direction::Right)
    } else if eq_ignore_ascii_case(s, "up"@) {
        Some(Direction::Up)
    } else if eq_ignore_ascii_case(s, "down"@) {
        Some(Direction::Down)
    } else {
        None
    }
}

impl Direction {
    /// Parses a direction name, ignoring ASCII case.
    pub fn from_string(s: &str) -> (r: Option<Direction>)
        ensures
            r == direction_of_string(s@),
    {
        if str_eq_ignore_ascii_case(s, "left") {
            Some(Direction::Left)
        } else if str_eq_ignore_ascii_case(s, "right") {
            Some(Direction::Right)
        } else if str_eq_ignore_ascii_case(s, "up") {
            Some(Direction::Up)
        } else if str_eq_ignore_ascii_case(s, "down") {
            Some(Direction::Down)
        } else {
            None
        }
    }
}

/// The abstract value of an action: the spawn command as a character
/// sequence, everything else as in [`Action`].
#[verifier::ext_equal]
pub ghost enum ActionView {
    Spawn(Seq<char>),
    Close,
    Fullscreen,
    ToggleFloating,
    Maximize,
    Minimize,
    Exit,
    Workspace(u32),
    MoveToWorkspace(u32),
    Focus(Direction),
    Move(Direction),
    Resize(Direction, i32),
    NoOp,
}

/// A window-management action, produced by resolving a key event against the
/// keybinding table and consumed exactly once by the compositor driver.
#[derive(Debug, PartialEq, Eq)]
pub enum Action {
    Spawn(String),
    Close,
    Fullscreen,
    ToggleFloating,
    Maximize,
    Minimize,
    Exit,
    Workspace(u32),
    MoveToWorkspace(u32),
    Focus(Direction),
    Move(Direction),
    Resize(Direction, i32),
    NoOp,
}

impl View for Action {
    type V = ActionView;

    open spec fn view(&self) -> ActionView {
        match self {
            Action::Spawn(cmd) => ActionView::Spawn(cmd@),
            Action::Close => ActionView::Close,
            Action::Fullscreen => ActionView::Fullscreen,
            Action::ToggleFloating => ActionView::ToggleFloating,
            Action::Maximize => ActionView::Maximize,
            Action::Minimize => ActionView::Minimize,
            Action::Exit => ActionView::Exit,
            Action::Workspace(n) => ActionView::Workspace(*n),
            Action::MoveToWorkspace(n) => ActionView::MoveToWorkspace(*n),
            Action::Focus(d) => ActionView::Focus(*d),
            Action::Move(d) => ActionView::Move(*d),
            Action::Resize(d, amount) => ActionView::Resize(*d, *amount),
            Action::NoOp => ActionView::NoOp,
        }
    }
}

impl Clone for Action {
    fn clone(&self) -> (r: Self)
        ensures
            r == *self,
    {
        match self {
            Action::Spawn(cmd) => Action::Spawn(cmd.clone()),
            Action::Close => Action::Close,
            Action::Fullscreen => Action::Fullscreen,
            Action::ToggleFloating => Action::ToggleFloating,
            Action::Maximize => Action::Maximize,
            Action::Minimize => Action::Minimize,
            Action::Exit => Action::Exit,
            Action::Workspace(n) => Action::Workspace(*n),
            Action::MoveToWorkspace(n) => Action::MoveToWorkspace(*n),
            Action::Focus(d) => Action::Focus(*d),
            Action::Move(d) => Action::Move(*d),
            Action::Resize(d, amount) => Action::Resize(*d, *amount),
            Action::NoOp => Action::NoOp,
        }
    }
}

/// Why an action string was rejected: the numeric suffix of a workspace
/// action was not a plain in-range decimal number. Such an entry is dropped
/// from the table entirely rather than mapped to a no-op.
#[derive(Clone, Copy, Debug, PartialEq, Eq, Structural)]
pub enum ActionParseError {
    InvalidNumber,
}

/// Whether `s` begins with the prefix `p`.
pub open spec fn starts_with(s: Seq<char>, p: Seq<char>) -> bool {
    s.len() >= p.len() && s.subrange(0, p.len() as int) == p
}

/// The action an action string denotes. The grammar is prefix-dispatched:
/// `spawn:<cmd>`, `workspace:<n>`, `move_to_workspace:<n>`, `focus:<dir>`
/// and `move:<dir>`; then the exact words `close`, `fullscreen`,
/// `toggle_floating`, `maximize`, `minimize`, `exit`. Anything unrecognized
/// (an unknown word or a bad direction) denotes the no-op action; only a
/// malformed workspace number is an error, so that such a binding is
/// dropped rather than registered.
pub open spec fn spec_parse_action(s: Seq<char>) -> Result<ActionView, ActionParseError> {
    if starts_with(s, "spawn:"@) {
        Ok(ActionView::Spawn(s.skip("spawn:"@.len() as int)))
    } else if starts_with(s, "workspace:"@) {
        match parse_u32_spec(s.skip("workspace:"@.len() as int)) {
            Some(n) => Ok(ActionView::Workspace(n)),
            None => Err(ActionParseError::InvalidNumber),
        }
    } else if starts_with(s, "move_to_workspace:"@) {
        match parse_u32_spec(s.skip("move_to_workspace:"@.len() as int)) {
            Some(n) => Ok(ActionView::MoveToWorkspace(n)),
            None => Err(ActionParseError::InvalidNumber),
        }
    } else if starts_with(s, "focus:"@) {
        match direction_of_string(s.skip("focus:"@.len() as int)) {
            Some(d) => Ok(ActionView::Focus(d)),
            None => Ok(ActionView::NoOp),
        }
    } else if starts_with(s, "move:"@) {
        match direction_of_string(s.skip("move:"@.len() as int)) {
            Some(d) => Ok(ActionView::Move(d)),
            None => Ok(ActionView::NoOp),
        }
    } else if s == "close"@ {
        Ok(ActionView::Close)
    } else if s == "fullscreen"@ {
        Ok(ActionView::Fullscreen)
    } else if s == "toggle_floating"@ {
        Ok(ActionView::ToggleFloating)
    } else if s == "maximize"@ {
        Ok(ActionView::Maximize)
    } else if s == "minimize"@ {
        Ok(ActionView::Minimize)
    } else if s == "exit"@ {
        Ok(ActionView::Exit)
    } else {
        Ok(ActionView::NoOp)
    }
}

/// The abstract value of a parse result.
pub open spec fn action_result_view(r: Result<Action, ActionParseError>) -> Result<
    ActionView,
    ActionParseError,
> {
    match r {
        Ok(a) => Ok(a@),
        Err(e) => Err(e),
    }
}

/// The abstract value of the keybinding table: combination and action views
/// in table order.
pub open spec fn bindings_view(bs: Seq<(KeyCombination, Action)>) -> Seq<(ComboView, ActionView)> {
    bs.map_values(|p: (KeyCombination, Action)| (p.0@, p.1@))
}

/// Whether the table already holds a combination equal to `c` (keys equal,
/// modifier lists equal as sets).
pub open spec fn binding_known(bs: Seq<(ComboView, ActionView)>, c: ComboView) -> bool {
    exists|i: int| 0 <= i < bs.len() && combo_same(bs[i].0, c)
}

/// Combination equality: same key, same modifiers as a set (insertion order
/// ignored).
pub open spec fn combo_same(a: ComboView, b: ComboView) -> bool {
    &&& a.key == b.key
    &&& forall|i: int| 0 <= i < a.mods.len() ==> b.mods.contains(a.mods[i])
    &&& forall|i: int| 0 <= i < b.mods.len() ==> a.mods.contains(b.mods[i])
}

/// The keybinding table a configuration loads into: every pair parsed in
/// order, entries with a malformed workspace number dropped, and an entry
/// whose combination is already bound rejected (the earlier binding wins).
pub open spec fn load_bindings(pairs: Seq<(String, String)>) -> Seq<(ComboView, ActionView)>
    decreases pairs.len(),
{
    if pairs.len() == 0 {
        Seq::empty()
    } else {
        let prev = load_bindings(pairs.drop_last());
        let cv = combo_of_string(pairs.last().0@);
        match spec_parse_action(pairs.last().1@) {
            Ok(av) => if binding_known(prev, cv) {
                prev
            } else {
                prev.push((cv, av))
            },
            Err(_) => prev,
        }
    }
}

/// The first table entry that fires for the held modifiers and pressed key,
/// scanning in table order.
pub open spec fn first_match(
    bs: Seq<(ComboView, ActionView)>,
    held: Seq<Modifier>,
    key: Seq<char>,
) -> Option<ActionView>
    decreases bs.len(),
{
    if bs.len() == 0 {
        None
    } else if combo_matches(bs[0].0, held, key) {
        Some(bs[0].1)
    } else {
        first_match(bs.drop_first(), held, key)
    }
}

/// Whether two combinations are equal (keys equal, modifier lists equal as
/// sets).
fn combos_equivalent(a: &KeyCombination, b: &KeyCombination) -> (r: bool)
    ensures
        r == combo_same(a@, b@),
{
    if !str_eq(a.key.as_str(), b.key.as_str()) {
        return false;
    }
    let n = a.modifiers.len();
    let mut i: usize = 0;
    while i < n
        invariant
            n == a.modifiers@.len(),
            0 <= i <= n,
            forall|j: int| 0 <= j < i ==> b.modifiers@.contains(a.modifiers@[j]),
        decreases n - i,
    {
        if !contains_modifier(b.modifiers.as_slice(), a.modifiers[i]) {
            proof {
                assert(!b@.mods.contains(a@.mods[i as int]));
                assert(!combo_same(a@, b@));
            }
            return false;
        }
        i = i + 1;
    }
    let m = b.modifiers.len();
    let mut j: usize = 0;
    while j < m
        invariant
            m == b.modifiers@.len(),
            0 <= j <= m,
            forall|k: int| 0 <= k < a.modifiers@.len() ==> b.modifiers@.contains(a.modifiers@[k]),
            a@.key == b@.key,
            forall|k: int| 0 <= k < j ==> a.modifiers@.contains(b.modifiers@[k]),
        decreases m - j,
    {
        if !contains_modifier(a.modifiers.as_slice(), b.modifiers[j]) {
            proof {
                assert(!a@.mods.contains(b@.mods[j as int]));
                assert(!combo_same(a@, b@));
            }
            return false;
        }
        j = j + 1;
    }
    true
}

/// The keybinding table and the currently held modifiers.
pub struct InputHandler {
    keybindings: Vec<(KeyCombination, Action)>,
    current_modifiers: Vec<Modifier>,
}

/// The predicate selecting the modifiers that stay held when `m` is
/// released.
pub open spec fn keep_modifier(m: Modifier) -> spec_fn(Modifier) -> bool {
    |x: Modifier| x != m
}

impl InputHandler {
    /// The table, as combination and action views in order.
    pub closed spec fn bindings(self) -> Seq<(ComboView, ActionView)> {
        bindings_view(self.keybindings@)
    }

    /// The modifiers currently held.
    pub closed spec fn held(self) -> Seq<Modifier> {
        self.current_modifiers@
    }

    /// The held-modifier list never carries duplicates.
    pub open spec fn wf(self) -> bool {
        self.held().no_duplicates()
    }

    /// Parses an action string; see [`spec_parse_action`] for the grammar.
    pub fn parse_action(action_str: &str) -> (r: Result<Action, ActionParseError>)
        ensures
            action_result_view(r) == spec_parse_action(action_str@),
    {
        let n = action_str.unicode_len();
        proof {
            reveal_strlit("spawn:");
            reveal_strlit("workspace:");
            reveal_strlit("move_to_workspace:");
            reveal_strlit("focus:");
            reveal_strlit("move:");
        }
        if n >= 6 && str_eq(action_str.substring_char(0, 6), "spawn:") {
            let rest = action_str.substring_char(6, n);
            proof {
                assert(action_str@.subrange(6, n as int) =~= action_str@.skip(6));
            }
            return Ok(Action::Spawn(rest.to_owned()));
        }
        if n >= 10 && str_eq(action_str.substring_char(0, 10), "workspace:") {
            let rest = action_str.substring_char(10, n);
            proof {
                assert(action_str@.subrange(10, n as int) =~= action_str@.skip(10));
            }
            return match parse_u32(rest) {
                Some(num) => Ok(Action::Workspace(num)),
                None => Err(ActionParseError::InvalidNumber),
            };
        }
        if n >= 18 && str_eq(action_str.substring_char(0, 18), "move_to_workspace:") {
            let rest = action_str.substring_char(18, n);
            proof {
                assert(action_str@.subrange(18, n as int) =~= action_str@.skip(18));
            }
            return match parse_u32(rest) {
                Some(num) => Ok(Action::MoveToWorkspace(num)),
                None => Err(ActionParseError::InvalidNumber),
            };
        }
        if n >= 6 && str_eq(action_str.substring_char(0, 6), "focus:") {
            let rest = action_str.substring_char(6, n);
            proof {
                assert(action_str@.subrange(6, n as int) =~= action_str@.skip(6));
            }
            return match Direction::from_string(rest) {
                Some(d) => Ok(Action::Focus(d)),
                None => Ok(Action::NoOp),
            };
        }
        if n >= 5 && str_eq(action_str.substring_char(0, 5), "move:") {
            let rest = action_str.substring_char(5, n);
            proof {
                assert(action_str@.subrange(5, n as int) =~= action_str@.skip(5));
            }
            return match Direction::from_string(rest) {
                Some(d) => Ok(Action::Move(d)),
                None => Ok(Action::NoOp),
            };
        }
        if str_eq(action_str, "close") {
            Ok(Action::Close)
        } else if str_eq(action_str, "fullscreen") {
            Ok(Action::Fullscreen)
        } else if str_eq(action_str, "toggle_floating") {
            Ok(Action::ToggleFloating)
        } else if str_eq(action_str, "maximize") {
            Ok(Action::Maximize)
        } else if str_eq(action_str, "minimize") {
            Ok(Action::Minimize)
        } else if str_eq(action_str, "exit") {
            Ok(Action::Exit)
        } else {
            Ok(Action::NoOp)
        }
    }

    /// Loads the keybinding table from the configuration: pairs are parsed
    /// in order; entries with a malformed workspace number are dropped, and
    /// a duplicate combination is rejected so the earlier entry wins. No
    /// modifiers are held initially.
    pub fn new(config: &crate::config::Config) -> (h: InputHandler)
        ensures
            h.bindings() == load_bindings(config.keybindings@),
            h.held() == Seq::<Modifier>::empty(),
            h.wf(),
    {
        let mut keybindings: Vec<(KeyCombination, Action)> = Vec::new();
        let n = config.keybindings.len();
        let mut i: usize = 0;
        proof {
            assert(config.keybindings@.subrange(0, 0) =~= Seq::<(String, String)>::empty());
            assert(bindings_view(keybindings@) =~= Seq::<(ComboView, ActionView)>::empty());
        }
        while i < n
            invariant
                n == config.keybindings@.len(),
                0 <= i <= n,
                bindings_view(keybindings@) == load_bindings(config.keybindings@.subrange(0,
                    i as int)),
            decreases n - i,
        {
            let pair = &config.keybindings[i];
            let combo = match KeyCombination::from_string(pair.0.as_str()) {
                Some(c) => c,
                None => {
                    proof {
                        assert(false);
                    }
                    unreached()
                },
            };
            proof {
                assert(config.keybindings@.subrange(0, i as int + 1).drop_last()
                    =~= config.keybindings@.subrange(0, i as int));
                assert(config.keybindings@.subrange(0, i as int + 1).last()
                    == config.keybindings@[i as int]);
            }
            match InputHandler::parse_action(pair.1.as_str()) {
                Ok(action) => {
                    if !Self::binding_exists(&keybindings, &combo) {
                        keybindings.push((combo, action));
                        proof {
                            assert(bindings_view(keybindings@) =~= bindings_view(
                                keybindings@.drop_last()).push((keybindings@.last().0@,
                                keybindings@.last().1@)));
                        }
                    }
                },
                Err(_) => {},
            }
            i = i + 1;
        }
        proof {
            assert(config.keybindings@.subrange(0, n as int) =~= config.keybindings@);
        }
        InputHandler { keybindings, current_modifiers: Vec::new() }
    }

    /// Whether the table already holds a combination equal to `c`.
    fn binding_exists(bs: &Vec<(KeyCombination, Action)>, c: &KeyCombination) -> (r: bool)
        ensures
            r == binding_known(bindings_view(bs@), c@),
    {
        let n = bs.len();
        let mut i: usize = 0;
        while i < n
            invariant
                n == bs@.len(),
                0 <= i <= n,
                forall|j: int| 0 <= j < i ==> !combo_same(bindings_view(bs@)[j].0, c@),
            decreases n - i,
        {
            let p = &bs[i];
            if combos_equivalent(&p.0, c) {
                proof {
                    assert(bindings_view(bs@)[i as int].0 == p.0@);
                }
                return true;
            }
            i = i + 1;
        }
        false
    }

    /// Records a modifier as held; already-held modifiers are not
    /// duplicated.
    pub fn modifier_pressed(&mut self, modifier: Modifier)
        requires
            old(self).wf(),
        ensures
            final(self).bindings() == old(self).bindings(),
            final(self).held() == if old(self).held().contains(modifier) {
                old(self).held()
            } else {
                old(self).held().push(modifier)
            },
            final(self).wf(),
    {
        if !contains_modifier(self.current_modifiers.as_slice(), modifier) {
            let ghost held0 = self.current_modifiers@;
            self.current_modifiers.push(modifier);
            proof {
                assert forall|a: int, b: int|
                    0 <= a < b < self.current_modifiers@.len() implies self.current_modifiers@[a]
                    != self.current_modifiers@[b] by {
                    if b == self.current_modifiers@.len() - 1 {
                        assert(self.current_modifiers@[a] == held0[a]);
                        assert(!held0.contains(modifier));
                    }
                }
            }
        }
    }

    /// Releases a modifier: every occurrence leaves the held list, order of
    /// the rest kept.
    pub fn modifier_released(&mut self, modifier: Modifier)
        requires
            old(self).wf(),
        ensures
            final(self).bindings() == old(self).bindings(),
            final(self).held() == old(self).held().filter(keep_modifier(modifier)),
            final(self).wf(),
    {
        let ghost held0 = self.current_modifiers@;
        let n = self.current_modifiers.len();
        let mut kept: Vec<Modifier> = Vec::new();
        let mut i: usize = 0;
        proof {
            assert(held0.subrange(0, 0) =~= Seq::<Modifier>::empty());
            assert(kept@ =~= Seq::<Modifier>::empty());
        }
        while i < n
            invariant
                self.current_modifiers@ == held0,
                n == held0.len(),
                0 <= i <= n,
                kept@ == held0.subrange(0, i as int).filter(keep_modifier(modifier)),
            decreases n - i,
        {
            proof {
                assert(held0.subrange(0, i as int + 1) =~= held0.subrange(0, i as int).push(
                    held0[i as int]));
                crate::seq_util::lemma_filter_push(held0.subrange(0, i as int), held0[i as int],
                    keep_modifier(modifier));
            }
            let m = self.current_modifiers[i];
            if m != modifier {
                kept.push(m);
            }
            i = i + 1;
        }
        proof {
            assert(held0.subrange(0, n as int) =~= held0);
        }
        self.current_modifiers = kept;
        proof {
            crate::seq_util::lemma_filter_no_duplicates(held0, keep_modifier(modifier));
        }
    }

    /// Resolves a key press against the table: the action of the first
    /// binding whose modifier set exactly equals the held set and whose key
    /// matches, if any.
    pub fn key_pressed(&self, key: &str) -> (r: Option<Action>)
        ensures
            match r {
                Some(a) => first_match(self.bindings(), self.held(), key@) == Some(a@),
                None => first_match(self.bindings(), self.held(), key@) is None,
            },
    {
        let n = self.keybindings.len();
        let mut i: usize = 0;
        proof {
            assert(self.bindings().skip(0) =~= self.bindings());
        }
        while i < n
            invariant
                n == self.keybindings@.len(),
                0 <= i <= n,
                first_match(self.bindings(), self.held(), key@) == first_match(
                    self.bindings().skip(i as int), self.held(), key@),
            decreases n - i,
        {
            proof {
                assert(self.bindings().skip(i as int)[0] == self.bindings()[i as int]);
                assert(self.bindings().skip(i as int).drop_first() =~= self.bindings().skip(
                    i as int + 1));
            }
            let p = &self.keybindings[i];
            if p.0.matches(self.current_modifiers.as_slice(), key) {
                let a = p.1.clone();
                return Some(a);
            }
            i = i + 1;
        }
        proof {
            assert(self.bindings().skip(n as int) =~= Seq::<(ComboView, ActionView)>::empty());
        }
        None
    }

    /// The modifiers currently held, in the order they were pressed.
    pub fn current_modifiers(&self) -> (r: &[Modifier])
        ensures
            r@ == self.held(),
    {
        self.current_modifiers.as_slice()
    }
}

/// The current pointer position (in integer logical pixels) and the state of
/// the three mouse buttons.
#[derive(Clone, Copy, Debug, PartialEq, Eq, Structural)]
pub struct MouseState {
    pub x: i32,
    pub y: i32,
    pub button_left: bool,
    pub button_right: bool,
    pub button_middle: bool,
}

impl Default for MouseState {
    /// The pointer at the origin with no button pressed.
    fn default() -> (r: MouseState)
        ensures
            r == (MouseState {
                x: 0,
                y: 0,
                button_left: false,
                button_right: false,
                button_middle: false,
            }),
    {
        MouseState { x: 0, y: 0, button_left: false, button_right: false, button_middle: false }
    }
}

impl MouseState {
    pub fn position(&self) -> (r: (i32, i32))
        ensures
            r == (self.x, self.y),
    {
        (self.x, self.y)
    }

    pub fn update_position(&mut self, x: i32, y: i32)
        ensures
            *final(self) == (MouseState { x, y, ..*old(self) }),
    {
        self.x = x;
        self.y = y;
    }

    pub fn any_button_pressed(&self) -> (r: bool)
        ensures
            r == (self.button_left || self.button_right || self.button_middle),
    {
        self.button_left || self.button_right || self.button_middle
    }
}

/// The active drag interaction: nothing, a window move (pointer start and
/// window origin at drag start), or a window resize (pointer start and
/// window size at drag start). Never both at once; any button release
/// returns to `Idle`.
#[derive(Clone, Copy, Debug, PartialEq, Eq, Structural)]
pub enum DragOperation {
    Idle,
    Move { start_x: i32, start_y: i32, window_x: i32, window_y: i32 },
    Resize { start_x: i32, start_y: i32, original_width: u32, original_height: u32 },
}

impl Default for DragOperation {
    fn default() -> (r: DragOperation)
        ensures
            r == DragOperation::Idle,
    {
        DragOperation::Idle
    }
}

} // verus!
