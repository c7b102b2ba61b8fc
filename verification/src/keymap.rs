//! Data-driven keybindings: a key is one keypress, a chord a sequence of keys,
//! and a keymap binds chords to actions. The event loop asks the keymap what
//! the keys pressed so far mean: an action, the beginning of a longer chord, or nothing.
use vstd::prelude::*;
use crate::assoc::{assoc, lemma_assoc_found, lemma_assoc_absent, lemma_assoc_push};
use crate::errors::FxError;

verus! {

/// The modifier bits of a keypress (as crossterm numbers them).
pub const MOD_NONE: u8 = 0;
pub const MOD_SHIFT: u8 = 1;
pub const MOD_CONTROL: u8 = 2;
pub const MOD_ALT: u8 = 4;

/// The key of a keypress.
#[derive(Debug, Clone, Copy, PartialEq, Eq, Structural, Hash)]
pub enum KeyCode {
    Backspace,
    Enter,
    Left,
    Right,
    Up,
    Down,
    Home,
    End,
    PageUp,
    PageDown,
    Tab,
    BackTab,
    Delete,
    Insert,
    F(u8),
    Char(char),
    Null,
    Esc,
    Other,
}

/// One physical keypress. Uppercase characters carry their case in `code`, so
/// the shift bit is cleared for character keys.
#[derive(Debug, Clone, Copy, PartialEq, Eq, Structural, Hash)]
pub struct Key {
    pub code: KeyCode,
    pub mods: u8,
}

impl Key {
    /// A key from a terminal event, without the shift bit for character keys.
    pub fn from_event(code: KeyCode, mods: u8) -> (k: Self)
        ensures
            k.code == code,
            k.mods == match code {
                KeyCode::Char(_) => mods & 0xfeu8,
                _ => mods,
            },
    {
        let mods = match code {
            KeyCode::Char(_) => mods & 0xfeu8,
            _ => mods,
        };
        Key { code, mods }
    }

    /// A keypress without modifiers.
    pub fn plain(code: KeyCode) -> (k: Self)
        ensures
            k == (Key { code, mods: MOD_NONE }),
    {
        Key { code, mods: MOD_NONE }
    }
}

/// A sequence of keys forming one binding: `j` is one key, `gg` two.
#[derive(Debug, Clone, PartialEq, Eq, Hash)]
pub struct KeyChord(pub Vec<Key>);

/// Every remappable command.
#[derive(Debug, Clone, Copy, PartialEq, Eq, Structural, Hash)]
pub enum Action {
    MoveDown,
    MoveUp,
    HalfPageDown,
    HalfPageUp,
    GoToTop,
    GoToBottom,
    Open,
    OpenNewWindow,
    GoToParent,
    JumpForward,
    JumpBackward,
    Unpack,
    Delete,
    Yank,
    Put,
    Undo,
    Redo,
    ToggleSort,
    ToggleHidden,
    TogglePreview,
    ToggleSplit,
    ToggleVisual,
    ResetSelection,
    SearchNext,
    SearchPrev,
    ScrollPreviewDown,
    ScrollPreviewUp,
    EnterInsert,
    EnterInsertDir,
    Rename,
    EnterSearch,
    EnterCommandLine,
    EnterRegister,
    ZoxideJump,
    Quit,
    QuitWithoutSave,
}

/// Result of looking up the keys pressed so far.
#[derive(Debug, Clone, Copy, PartialEq, Eq, Structural)]
pub enum Resolved {
    /// The keys are a complete binding.
    Action(Action),
    /// The keys begin one or more longer bindings: wait for the next key.
    Prefix,
    /// Dead end: drop the keys.
    Nothing,
}

/// Chord bindings (in order; a later one overrides an earlier one for the same
/// chord) and the single keys that act at once in visual mode.
#[derive(Debug, Clone)]
pub struct Keymap {
    pub map: Vec<(KeyChord, Action)>,
    pub visual_overrides: Vec<(Key, Action)>,
}

/// The chords and actions of a list of bindings.
pub open spec fn chord_entries(m: Seq<(KeyChord, Action)>) -> Seq<(Seq<Key>, Action)> {
    m.map_values(|e: (KeyChord, Action)| (e.0.0@, e.1))
}

/// Whether `p` is a non-empty strict prefix of a bound chord.
pub open spec fn is_live_prefix(entries: Seq<(Seq<Key>, Action)>, p: Seq<Key>) -> bool {
    exists|i: int|
        0 <= i < entries.len() && 1 <= p.len() < (#[trigger] entries[i]).0.len() && entries[i].0.take(
            p.len() as int,
        ) == p
}

impl Keymap {
    /// The chord bindings as a map.
    pub open spec fn bindings(self) -> Map<Seq<Key>, Action> {
        assoc(chord_entries(self.map@))
    }

    /// The visual-mode single-key bindings as a map.
    pub open spec fn visual(self) -> Map<Key, Action> {
        assoc(self.visual_overrides@)
    }

    /// What the keys `pending` mean: in visual mode a single key with a visual
    /// binding acts at once; otherwise an exact binding wins over being the
    /// beginning of a longer chord.
    pub open spec fn spec_resolve(self, pending: Seq<Key>, visual: bool) -> Resolved {
        if visual && pending.len() == 1 && self.visual().contains_key(pending[0]) {
            Resolved::Action(self.visual()[pending[0]])
        } else if self.bindings().contains_key(pending) {
            Resolved::Action(self.bindings()[pending])
        } else if is_live_prefix(chord_entries(self.map@), pending) {
            Resolved::Prefix
        } else {
            Resolved::Nothing
        }
    }

    /// Insert or override a binding.
    pub fn insert(&mut self, chord: KeyChord, action: Action)
        ensures
            chord_entries(final(self).map@) == chord_entries(old(self).map@).push((chord.0@, action)),
            final(self).bindings() == old(self).bindings().insert(chord.0@, action),
            final(self).visual_overrides@ == old(self).visual_overrides@,
    {
        let ghost before = chord_entries(self.map@);
        let ghost c = chord.0@;
        self.map.push((chord, action));
        proof {
            assert(chord_entries(self.map@) =~= before.push((c, action)));
            lemma_assoc_push(before, c, action);
        }
    }

    /// Whether `pending` begins a longer bound chord.
    fn is_prefix(&self, pending: &[Key]) -> (b: bool)
        ensures
            b == is_live_prefix(chord_entries(self.map@), pending@),
    {
        let ghost entries = chord_entries(self.map@);
        let n = pending.len();
        let mut i: usize = 0;
        while i < self.map.len()
            invariant
                i <= self.map@.len(),
                n == pending@.len(),
                entries == chord_entries(self.map@),
                forall|j: int| 0 <= j < i ==> !(1 <= n < (#[trigger] entries[j]).0.len() && entries[j].0.take(n as int) == pending@),
            decreases self.map@.len() - i,
        {
            let chord = &self.map[i].0.0;
            if 1 <= n && n < chord.len() && keys_prefix_eq(chord, pending) {
                proof {
                    assert(entries[i as int].0 == chord@);
                    assert(1 <= n < entries[i as int].0.len() && entries[i as int].0.take(n as int) == pending@);
                }
                return true;
            }
            i = i + 1;
        }
        false
    }

    /// Look up the keys pressed so far.
    pub fn resolve(&self, pending: &[Key], visual: bool) -> (r: Resolved)
        ensures
            r == self.spec_resolve(pending@, visual),
    {
        if visual && pending.len() == 1 {
            let key = pending[0];
            let mut i: usize = self.visual_overrides.len();
            while i > 0
                invariant
                    i <= self.visual_overrides@.len(),
                    visual,
                    pending@.len() == 1,
                    key == pending@[0],
                    forall|j: int| i <= j < self.visual_overrides@.len() ==> (#[trigger] self.visual_overrides@[j]).0 != key,
                decreases i,
            {
                if self.visual_overrides[i - 1].0 == key {
                    proof {
                        lemma_assoc_found(self.visual_overrides@, key, i as int);
                    }
                    return Resolved::Action(self.visual_overrides[i - 1].1);
                }
                i = i - 1;
            }
            proof {
                lemma_assoc_absent(self.visual_overrides@, key);
            }
        }
        let ghost entries = chord_entries(self.map@);
        let mut i: usize = self.map.len();
        while i > 0
            invariant
                i <= self.map@.len(),
                entries == chord_entries(self.map@),
                !(visual && pending@.len() == 1 && self.visual().contains_key(pending@[0])),
                forall|j: int| i <= j < entries.len() ==> (#[trigger] entries[j]).0 != pending@,
            decreases i,
        {
            if keys_eq(&self.map[i - 1].0.0, pending) {
                proof {
                    assert(entries[i - 1].0 == pending@);
                    lemma_assoc_found(entries, pending@, i as int);
                }
                return Resolved::Action(self.map[i - 1].1);
            }
            i = i - 1;
        }
        proof {
            lemma_assoc_absent(entries, pending@);
        }
        if self.is_prefix(pending) {
            return Resolved::Prefix;
        }
        Resolved::Nothing
    }
}

/// Whether the key sequences `a` and `b` are equal.
fn keys_eq(a: &Vec<Key>, b: &[Key]) -> (r: bool)
    ensures
        r == (a@ == b@),
{
    if a.len() != b.len() {
        return false;
    }
    let mut i: usize = 0;
    while i < a.len()
        invariant
            a@.len() == b@.len(),
            i <= a@.len(),
            forall|j: int| 0 <= j < i ==> a@[j] == b@[j],
        decreases a@.len() - i,
    {
        if a[i] != b[i] {
            return false;
        }
        i = i + 1;
    }
    assert(a@ =~= b@);
    true
}

/// Whether `b` is the beginning of `a` (for `b` no longer than `a`).
fn keys_prefix_eq(a: &Vec<Key>, b: &[Key]) -> (r: bool)
    requires
        b@.len() <= a@.len(),
    ensures
        r == (a@.take(b@.len() as int) == b@),
{
    let mut i: usize = 0;
    while i < b.len()
        invariant
            b@.len() <= a@.len(),
            i <= b@.len(),
            forall|j: int| 0 <= j < i ==> a@[j] == b@[j],
        decreases b@.len() - i,
    {
        if a[i] != b[i] {
            assert(a@.take(b@.len() as int)[i as int] != b@[i as int]);
            return false;
        }
        i = i + 1;
    }
    assert(a@.take(b@.len() as int) =~= b@);
    true
}

fn one(k: Key) -> (c: KeyChord)
    ensures
        c.0@ == seq![k],
{
    let mut v: Vec<Key> = Vec::new();
    v.push(k);
    proof {
        assert(v@ =~= seq![k]);
    }
    KeyChord(v)
}

fn two(a: Key, b: Key) -> (c: KeyChord)
    ensures
        c.0@ == seq![a, b],
{
    let mut v: Vec<Key> = Vec::new();
    v.push(a);
    v.push(b);
    proof {
        assert(v@ =~= seq![a, b]);
    }
    KeyChord(v)
}

/// The built-in bindings.
pub open spec fn default_entries() -> Seq<(Seq<Key>, Action)> {
    seq![
        (seq![Key { code: KeyCode::Char('j'), mods: MOD_NONE }], Action::MoveDown),
        (seq![Key { code: KeyCode::Down, mods: MOD_NONE }], Action::MoveDown),
        (seq![Key { code: KeyCode::Char('k'), mods: MOD_NONE }], Action::MoveUp),
        (seq![Key { code: KeyCode::Up, mods: MOD_NONE }], Action::MoveUp),
        (seq![Key { code: KeyCode::Char('d'), mods: MOD_CONTROL }], Action::HalfPageDown),
        (seq![Key { code: KeyCode::Char('u'), mods: MOD_CONTROL }], Action::HalfPageUp),
        (seq![Key { code: KeyCode::Char('g'), mods: MOD_NONE }, Key { code: KeyCode::Char('g'), mods: MOD_NONE }], Action::GoToTop),
        (seq![Key { code: KeyCode::Char('G'), mods: MOD_NONE }], Action::GoToBottom),
        (seq![Key { code: KeyCode::Char('l'), mods: MOD_NONE }], Action::Open),
        (seq![Key { code: KeyCode::Enter, mods: MOD_NONE }], Action::Open),
        (seq![Key { code: KeyCode::Right, mods: MOD_NONE }], Action::Open),
        (seq![Key { code: KeyCode::Char('o'), mods: MOD_NONE }], Action::OpenNewWindow),
        (seq![Key { code: KeyCode::Char('h'), mods: MOD_NONE }], Action::GoToParent),
        (seq![Key { code: KeyCode::Left, mods: MOD_NONE }], Action::GoToParent),
        (seq![Key { code: KeyCode::Tab, mods: MOD_NONE }], Action::JumpForward),
        (seq![Key { code: KeyCode::Char('o'), mods: MOD_CONTROL }], Action::JumpBackward),
        (seq![Key { code: KeyCode::Char('e'), mods: MOD_NONE }], Action::Unpack),
        (seq![Key { code: KeyCode::Char('d'), mods: MOD_NONE }, Key { code: KeyCode::Char('d'), mods: MOD_NONE }], Action::Delete),
        (seq![Key { code: KeyCode::Char('y'), mods: MOD_NONE }, Key { code: KeyCode::Char('y'), mods: MOD_NONE }], Action::Yank),
        (seq![Key { code: KeyCode::Char('p'), mods: MOD_NONE }], Action::Put),
        (seq![Key { code: KeyCode::Char('u'), mods: MOD_NONE }], Action::Undo),
        (seq![Key { code: KeyCode::Char('r'), mods: MOD_CONTROL }], Action::Redo),
        (seq![Key { code: KeyCode::Char('t'), mods: MOD_NONE }], Action::ToggleSort),
        (seq![Key { code: KeyCode::Backspace, mods: MOD_NONE }], Action::ToggleHidden),
        (seq![Key { code: KeyCode::Char('v'), mods: MOD_NONE }], Action::TogglePreview),
        (seq![Key { code: KeyCode::Char('s'), mods: MOD_NONE }], Action::ToggleSplit),
        (seq![Key { code: KeyCode::Char('V'), mods: MOD_NONE }], Action::ToggleVisual),
        (seq![Key { code: KeyCode::Esc, mods: MOD_NONE }], Action::ResetSelection),
        (seq![Key { code: KeyCode::Char('n'), mods: MOD_NONE }], Action::SearchNext),
        (seq![Key { code: KeyCode::Char('N'), mods: MOD_NONE }], Action::SearchPrev),
        (seq![Key { code: KeyCode::Char('j'), mods: MOD_ALT }], Action::ScrollPreviewDown),
        (seq![Key { code: KeyCode::Down, mods: MOD_ALT }], Action::ScrollPreviewDown),
        (seq![Key { code: KeyCode::Char('k'), mods: MOD_ALT }], Action::ScrollPreviewUp),
        (seq![Key { code: KeyCode::Up, mods: MOD_ALT }], Action::ScrollPreviewUp),
        (seq![Key { code: KeyCode::Char('i'), mods: MOD_NONE }], Action::EnterInsert),
        (seq![Key { code: KeyCode::Char('I'), mods: MOD_NONE }], Action::EnterInsertDir),
        (seq![Key { code: KeyCode::Char('c'), mods: MOD_NONE }], Action::Rename),
        (seq![Key { code: KeyCode::Char('/'), mods: MOD_NONE }], Action::EnterSearch),
        (seq![Key { code: KeyCode::Char(':'), mods: MOD_NONE }], Action::EnterCommandLine),
        (seq![Key { code: KeyCode::Char('"'), mods: MOD_NONE }], Action::EnterRegister),
        (seq![Key { code: KeyCode::Char('z'), mods: MOD_NONE }], Action::ZoxideJump),
        (seq![Key { code: KeyCode::Char('Z'), mods: MOD_NONE }, Key { code: KeyCode::Char('Z'), mods: MOD_NONE }], Action::Quit),
        (seq![Key { code: KeyCode::Char('Z'), mods: MOD_NONE }, Key { code: KeyCode::Char('Q'), mods: MOD_NONE }], Action::QuitWithoutSave)
    ]
}

/// The single keys that act at once in visual mode: `d` deletes and `y` yanks
/// the selection (in normal mode they begin the `dd` and `yy` chords).
pub open spec fn default_visual() -> Seq<(Key, Action)> {
    seq![
        (Key { code: KeyCode::Char('d'), mods: MOD_NONE }, Action::Delete),
        (Key { code: KeyCode::Char('y'), mods: MOD_NONE }, Action::Yank)
    ]
}

impl Keymap {
    /// The built-in keymap.
    pub fn default_keymap() -> (km: Self)
        ensures
            chord_entries(km.map@) == default_entries(),
            km.visual_overrides@ == default_visual(),
    {
        let mut pairs: Vec<(KeyChord, Action)> = Vec::new();
        pairs.push((one(Key { code: KeyCode::Char('j'), mods: MOD_NONE }), Action::MoveDown));
        pairs.push((one(Key { code: KeyCode::Down, mods: MOD_NONE }), Action::MoveDown));
        pairs.push((one(Key { code: KeyCode::Char('k'), mods: MOD_NONE }), Action::MoveUp));
        pairs.push((one(Key { code: KeyCode::Up, mods: MOD_NONE }), Action::MoveUp));
        pairs.push((one(Key { code: KeyCode::Char('d'), mods: MOD_CONTROL }), Action::HalfPageDown));
        pairs.push((one(Key { code: KeyCode::Char('u'), mods: MOD_CONTROL }), Action::HalfPageUp));
        pairs.push((two(Key { code: KeyCode::Char('g'), mods: MOD_NONE }, Key { code: KeyCode::Char('g'), mods: MOD_NONE }), Action::GoToTop));
        pairs.push((one(Key { code: KeyCode::Char('G'), mods: MOD_NONE }), Action::GoToBottom));
        pairs.push((one(Key { code: KeyCode::Char('l'), mods: MOD_NONE }), Action::Open));
        pairs.push((one(Key { code: KeyCode::Enter, mods: MOD_NONE }), Action::Open));
        pairs.push((one(Key { code: KeyCode::Right, mods: MOD_NONE }), Action::Open));
        pairs.push((one(Key { code: KeyCode::Char('o'), mods: MOD_NONE }), Action::OpenNewWindow));
        pairs.push((one(Key { code: KeyCode::Char('h'), mods: MOD_NONE }), Action::GoToParent));
        pairs.push((one(Key { code: KeyCode::Left, mods: MOD_NONE }), Action::GoToParent));
        pairs.push((one(Key { code: KeyCode::Tab, mods: MOD_NONE }), Action::JumpForward));
        pairs.push((one(Key { code: KeyCode::Char('o'), mods: MOD_CONTROL }), Action::JumpBackward));
        pairs.push((one(Key { code: KeyCode::Char('e'), mods: MOD_NONE }), Action::Unpack));
        pairs.push((two(Key { code: KeyCode::Char('d'), mods: MOD_NONE }, Key { code: KeyCode::Char('d'), mods: MOD_NONE }), Action::Delete));
        pairs.push((two(Key { code: KeyCode::Char('y'), mods: MOD_NONE }, Key { code: KeyCode::Char('y'), mods: MOD_NONE }), Action::Yank));
        pairs.push((one(Key { code: KeyCode::Char('p'), mods: MOD_NONE }), Action::Put));
        pairs.push((one(Key { code: KeyCode::Char('u'), mods: MOD_NONE }), Action::Undo));
        pairs.push((one(Key { code: KeyCode::Char('r'), mods: MOD_CONTROL }), Action::Redo));
        pairs.push((one(Key { code: KeyCode::Char('t'), mods: MOD_NONE }), Action::ToggleSort));
        pairs.push((one(Key { code: KeyCode::Backspace, mods: MOD_NONE }), Action::ToggleHidden));
        pairs.push((one(Key { code: KeyCode::Char('v'), mods: MOD_NONE }), Action::TogglePreview));
        pairs.push((one(Key { code: KeyCode::Char('s'), mods: MOD_NONE }), Action::ToggleSplit));
        pairs.push((one(Key { code: KeyCode::Char('V'), mods: MOD_NONE }), Action::ToggleVisual));
        pairs.push((one(Key { code: KeyCode::Esc, mods: MOD_NONE }), Action::ResetSelection));
        pairs.push((one(Key { code: KeyCode::Char('n'), mods: MOD_NONE }), Action::SearchNext));
        pairs.push((one(Key { code: KeyCode::Char('N'), mods: MOD_NONE }), Action::SearchPrev));
        pairs.push((one(Key { code: KeyCode::Char('j'), mods: MOD_ALT }), Action::ScrollPreviewDown));
        pairs.push((one(Key { code: KeyCode::Down, mods: MOD_ALT }), Action::ScrollPreviewDown));
        pairs.push((one(Key { code: KeyCode::Char('k'), mods: MOD_ALT }), Action::ScrollPreviewUp));
        pairs.push((one(Key { code: KeyCode::Up, mods: MOD_ALT }), Action::ScrollPreviewUp));
        pairs.push((one(Key { code: KeyCode::Char('i'), mods: MOD_NONE }), Action::EnterInsert));
        pairs.push((one(Key { code: KeyCode::Char('I'), mods: MOD_NONE }), Action::EnterInsertDir));
        pairs.push((one(Key { code: KeyCode::Char('c'), mods: MOD_NONE }), Action::Rename));
        pairs.push((one(Key { code: KeyCode::Char('/'), mods: MOD_NONE }), Action::EnterSearch));
        pairs.push((one(Key { code: KeyCode::Char(':'), mods: MOD_NONE }), Action::EnterCommandLine));
        pairs.push((one(Key { code: KeyCode::Char('"'), mods: MOD_NONE }), Action::EnterRegister));
        pairs.push((one(Key { code: KeyCode::Char('z'), mods: MOD_NONE }), Action::ZoxideJump));
        pairs.push((two(Key { code: KeyCode::Char('Z'), mods: MOD_NONE }, Key { code: KeyCode::Char('Z'), mods: MOD_NONE }), Action::Quit));
        pairs.push((two(Key { code: KeyCode::Char('Z'), mods: MOD_NONE }, Key { code: KeyCode::Char('Q'), mods: MOD_NONE }), Action::QuitWithoutSave));
        let mut visual: Vec<(Key, Action)> = Vec::new();
        visual.push((Key { code: KeyCode::Char('d'), mods: MOD_NONE }, Action::Delete));
        visual.push((Key { code: KeyCode::Char('y'), mods: MOD_NONE }, Action::Yank));
        let km = Keymap { map: pairs, visual_overrides: visual };
        proof {
            assert(km.map@.len() == default_entries().len());
            assert forall|i: int| 0 <= i < default_entries().len() implies #[trigger] chord_entries(km.map@)[i] == default_entries()[i] by {
            }
            assert(chord_entries(km.map@) =~= default_entries());
            assert(km.visual_overrides@ =~= default_visual());
        }
        km
    }
}

/// Whether the strings `a` and `b` are equal.
pub(crate) fn str_eq(a: &str, b: &str) -> (r: bool)
    ensures
        r == (a@ == b@),
{
    let n = a.unicode_len();
    if n != b.unicode_len() {
        return false;
    }
    let mut i: usize = 0;
    while i < n
        invariant
            n == a@.len() == b@.len(),
            i <= n,
            forall|j: int| 0 <= j < i ==> a@[j] == b@[j],
        decreases n - i,
    {
        if a.get_char(i) != b.get_char(i) {
            return false;
        }
        i = i + 1;
    }
    assert(a@ =~= b@);
    true
}

/// The action that a snake_case name stands for.
pub open spec fn spec_action_named(s: Seq<char>) -> Option<Action> {
    if s == "move_down"@ {
        Some(Action::MoveDown)
    } else if s == "move_up"@ {
        Some(Action::MoveUp)
    } else if s == "half_page_down"@ {
        Some(Action::HalfPageDown)
    } else if s == "half_page_up"@ {
        Some(Action::HalfPageUp)
    } else if s == "go_to_top"@ {
        Some(Action::GoToTop)
    } else if s == "go_to_bottom"@ {
        Some(Action::GoToBottom)
    } else if s == "open"@ {
        Some(Action::Open)
    } else if s == "open_new_window"@ {
        Some(Action::OpenNewWindow)
    } else if s == "go_to_parent"@ {
        Some(Action::GoToParent)
    } else if s == "jump_forward"@ {
        Some(Action::JumpForward)
    } else if s == "jump_backward"@ {
        Some(Action::JumpBackward)
    } else if s == "unpack"@ {
        Some(Action::Unpack)
    } else if s == "delete"@ {
        Some(Action::Delete)
    } else if s == "yank"@ {
        Some(Action::Yank)
    } else if s == "put"@ {
        Some(Action::Put)
    } else if s == "undo"@ {
        Some(Action::Undo)
    } else if s == "redo"@ {
        Some(Action::Redo)
    } else if s == "toggle_sort"@ {
        Some(Action::ToggleSort)
    } else if s == "toggle_hidden"@ {
        Some(Action::ToggleHidden)
    } else if s == "toggle_preview"@ {
        Some(Action::TogglePreview)
    } else if s == "toggle_split"@ {
        Some(Action::ToggleSplit)
    } else if s == "toggle_visual"@ {
        Some(Action::ToggleVisual)
    } else if s == "reset_selection"@ {
        Some(Action::ResetSelection)
    } else if s == "search_next"@ {
        Some(Action::SearchNext)
    } else if s == "search_prev"@ {
        Some(Action::SearchPrev)
    } else if s == "scroll_preview_down"@ {
        Some(Action::ScrollPreviewDown)
    } else if s == "scroll_preview_up"@ {
        Some(Action::ScrollPreviewUp)
    } else if s == "enter_insert"@ {
        Some(Action::EnterInsert)
    } else if s == "enter_insert_dir"@ {
        Some(Action::EnterInsertDir)
    } else if s == "rename"@ {
        Some(Action::Rename)
    } else if s == "enter_search"@ {
        Some(Action::EnterSearch)
    } else if s == "enter_command_line"@ {
        Some(Action::EnterCommandLine)
    } else if s == "enter_register"@ {
        Some(Action::EnterRegister)
    } else if s == "zoxide_jump"@ {
        Some(Action::ZoxideJump)
    } else if s == "quit"@ {
        Some(Action::Quit)
    } else if s == "quit_without_save"@ {
        Some(Action::QuitWithoutSave)
    } else {
        None
    }
}

/// What `serde_yaml` reads from `s` as a YAML scalar string: its text, or
/// `None` when `s` is not one.
pub uninterp spec fn yaml_string(s: Seq<char>) -> Option<Seq<char>>;

/// `serde_yaml::from_str::<String>`: the text of the YAML scalar that `s` is.
#[verifier::external_body]
fn read_yaml_string(s: &str) -> (r: Option<String>)
    ensures
        match r {
            Some(t) => yaml_string(s@) == Some(t@),
            None => yaml_string(s@) is None,
        },
{
    serde_yaml::from_str::<String>(s).ok()
}

/// The action that an action name of the configuration stands for: the
/// snake_case name, read as a YAML scalar (so it may be quoted, and white
/// space and a comment around it do not count).
pub open spec fn spec_parse_action(s: Seq<char>) -> Option<Action> {
    match yaml_string(s) {
        Some(t) => spec_action_named(t),
        None => None,
    }
}

/// Parse an action name (snake_case, e.g. `go_to_bottom`) into an [`Action`],
/// reading it as `serde_yaml` reads a scalar. Returns `None` for an unknown name.
pub fn parse_action(s: &str) -> (r: Option<Action>)
    ensures
        r == spec_parse_action(s@),
{
    match read_yaml_string(s) {
        Some(t) => action_named(t.as_str()),
        None => None,
    }
}

/// The action that a snake_case name stands for.
fn action_named(s: &str) -> (r: Option<Action>)
    ensures
        r == spec_action_named(s@),
{
    if str_eq(s, "move_down") {
        Some(Action::MoveDown)
    } else if str_eq(s, "move_up") {
        Some(Action::MoveUp)
    } else if str_eq(s, "half_page_down") {
        Some(Action::HalfPageDown)
    } else if str_eq(s, "half_page_up") {
        Some(Action::HalfPageUp)
    } else if str_eq(s, "go_to_top") {
        Some(Action::GoToTop)
    } else if str_eq(s, "go_to_bottom") {
        Some(Action::GoToBottom)
    } else if str_eq(s, "open") {
        Some(Action::Open)
    } else if str_eq(s, "open_new_window") {
        Some(Action::OpenNewWindow)
    } else if str_eq(s, "go_to_parent") {
        Some(Action::GoToParent)
    } else if str_eq(s, "jump_forward") {
        Some(Action::JumpForward)
    } else if str_eq(s, "jump_backward") {
        Some(Action::JumpBackward)
    } else if str_eq(s, "unpack") {
        Some(Action::Unpack)
    } else if str_eq(s, "delete") {
        Some(Action::Delete)
    } else if str_eq(s, "yank") {
        Some(Action::Yank)
    } else if str_eq(s, "put") {
        Some(Action::Put)
    } else if str_eq(s, "undo") {
        Some(Action::Undo)
    } else if str_eq(s, "redo") {
        Some(Action::Redo)
    } else if str_eq(s, "toggle_sort") {
        Some(Action::ToggleSort)
    } else if str_eq(s, "toggle_hidden") {
        Some(Action::ToggleHidden)
    } else if str_eq(s, "toggle_preview") {
        Some(Action::TogglePreview)
    } else if str_eq(s, "toggle_split") {
        Some(Action::ToggleSplit)
    } else if str_eq(s, "toggle_visual") {
        Some(Action::ToggleVisual)
    } else if str_eq(s, "reset_selection") {
        Some(Action::ResetSelection)
    } else if str_eq(s, "search_next") {
        Some(Action::SearchNext)
    } else if str_eq(s, "search_prev") {
        Some(Action::SearchPrev)
    } else if str_eq(s, "scroll_preview_down") {
        Some(Action::ScrollPreviewDown)
    } else if str_eq(s, "scroll_preview_up") {
        Some(Action::ScrollPreviewUp)
    } else if str_eq(s, "enter_insert") {
        Some(Action::EnterInsert)
    } else if str_eq(s, "enter_insert_dir") {
        Some(Action::EnterInsertDir)
    } else if str_eq(s, "rename") {
        Some(Action::Rename)
    } else if str_eq(s, "enter_search") {
        Some(Action::EnterSearch)
    } else if str_eq(s, "enter_command_line") {
        Some(Action::EnterCommandLine)
    } else if str_eq(s, "enter_register") {
        Some(Action::EnterRegister)
    } else if str_eq(s, "zoxide_jump") {
        Some(Action::ZoxideJump)
    } else if str_eq(s, "quit") {
        Some(Action::Quit)
    } else if str_eq(s, "quit_without_save") {
        Some(Action::QuitWithoutSave)
    } else {
        None
    }
}

/// Index of the first `c` in `s`, or -1.
pub open spec fn first_index(s: Seq<char>, c: char) -> int
    decreases s.len(),
{
    if s.len() == 0 {
        -1
    } else if s[0] == c {
        0
    } else {
        let r = first_index(s.drop_first(), c);
        if r < 0 {
            -1
        } else {
            r + 1
        }
    }
}

proof fn lemma_first_index(s: Seq<char>, c: char)
    ensures
        -1 <= first_index(s, c) < s.len(),
        first_index(s, c) >= 0 ==> s[first_index(s, c)] == c,
        forall|j: int| 0 <= j < s.len() && (first_index(s, c) < 0 || j < first_index(s, c)) ==> s[j] != c,
    decreases s.len(),
{
    if s.len() > 0 && s[0] != c {
        lemma_first_index(s.drop_first(), c);
        assert forall|j: int| 0 <= j < s.len() && (first_index(s, c) < 0 || j < first_index(s, c)) implies s[j] != c by {
            if j > 0 {
                assert(s[j] == s.drop_first()[j - 1]);
            }
        }
    }
}

/// A key named by its own: a special key, or a single character.
pub open spec fn spec_named_key(s: Seq<char>) -> Option<Key> {
    if s == "Enter"@ || s == "CR"@ || s == "Return"@ {
        Some(Key { code: KeyCode::Enter, mods: MOD_NONE })
    } else if s == "Tab"@ {
        Some(Key { code: KeyCode::Tab, mods: MOD_NONE })
    } else if s == "Backspace"@ || s == "BS"@ {
        Some(Key { code: KeyCode::Backspace, mods: MOD_NONE })
    } else if s == "Esc"@ || s == "Escape"@ {
        Some(Key { code: KeyCode::Esc, mods: MOD_NONE })
    } else if s == "Space"@ {
        Some(Key { code: KeyCode::Char(' '), mods: MOD_NONE })
    } else if s == "Up"@ {
        Some(Key { code: KeyCode::Up, mods: MOD_NONE })
    } else if s == "Down"@ {
        Some(Key { code: KeyCode::Down, mods: MOD_NONE })
    } else if s == "Left"@ {
        Some(Key { code: KeyCode::Left, mods: MOD_NONE })
    } else if s == "Right"@ {
        Some(Key { code: KeyCode::Right, mods: MOD_NONE })
    } else if s.len() == 1 {
        Some(Key { code: KeyCode::Char(s[0]), mods: MOD_NONE })
    } else {
        None
    }
}

/// A string that names exactly one key: a modified key (`C-d`, `A-j`, `S-x`:
/// a prefix, the first `-`, one character), a special key, or one character.
/// A string with an unknown modifier before its first `-` and one character
/// after it names no key.
pub open spec fn spec_parse_single_key(s: Seq<char>) -> Option<Key> {
    let i = first_index(s, '-');
    if i >= 0 && s.len() - (i + 1) == 1 {
        let p = s.take(i);
        let ch = s[i + 1];
        if p == "C"@ || p == "c"@ {
            Some(Key { code: KeyCode::Char(ch), mods: MOD_CONTROL })
        } else if p == "A"@ || p == "a"@ || p == "M"@ || p == "m"@ {
            Some(Key { code: KeyCode::Char(ch), mods: MOD_ALT })
        } else if p == "S"@ || p == "s"@ {
            Some(Key { code: KeyCode::Char(ch), mods: MOD_SHIFT })
        } else {
            None
        }
    } else {
        spec_named_key(s)
    }
}

/// A character key without modifiers.
pub open spec fn char_key(ch: char) -> Key {
    Key { code: KeyCode::Char(ch), mods: MOD_NONE }
}

/// One plain character key per character.
pub open spec fn char_keys(s: Seq<char>) -> Seq<Key> {
    s.map_values(|ch: char| char_key(ch))
}

/// The keys of a chord string: one key when the whole string names one,
/// otherwise one plain character key per character. `None` for the empty string.
pub open spec fn spec_parse_chord(s: Seq<char>) -> Option<Seq<Key>> {
    if s.len() == 0 {
        None
    } else {
        match spec_parse_single_key(s) {
            Some(k) => Some(seq![k]),
            None => Some(char_keys(s)),
        }
    }
}

fn named_key(s: &str) -> (r: Option<Key>)
    ensures
        r == spec_named_key(s@),
{
    if str_eq(s, "Enter") || str_eq(s, "CR") || str_eq(s, "Return") {
        Some(Key::plain(KeyCode::Enter))
    } else if str_eq(s, "Tab") {
        Some(Key::plain(KeyCode::Tab))
    } else if str_eq(s, "Backspace") || str_eq(s, "BS") {
        Some(Key::plain(KeyCode::Backspace))
    } else if str_eq(s, "Esc") || str_eq(s, "Escape") {
        Some(Key::plain(KeyCode::Esc))
    } else if str_eq(s, "Space") {
        Some(Key::plain(KeyCode::Char(' ')))
    } else if str_eq(s, "Up") {
        Some(Key::plain(KeyCode::Up))
    } else if str_eq(s, "Down") {
        Some(Key::plain(KeyCode::Down))
    } else if str_eq(s, "Left") {
        Some(Key::plain(KeyCode::Left))
    } else if str_eq(s, "Right") {
        Some(Key::plain(KeyCode::Right))
    } else if s.unicode_len() == 1 {
        Some(Key::plain(KeyCode::Char(s.get_char(0))))
    } else {
        None
    }
}

/// Parse a string that names exactly one key, or return `None` if it should be
/// treated as a multi-key sequence.
fn parse_single_key(s: &str) -> (r: Option<Key>)
    requires
        s@.len() < usize::MAX,
    ensures
        r == spec_parse_single_key(s@),
{
    proof {
        lemma_first_index(s@, '-');
    }
    let n = s.unicode_len();
    let mut i: usize = 0;
    while i < n && s.get_char(i) != '-'
        invariant
            n == s@.len(),
            i <= n,
            forall|j: int| 0 <= j < i ==> s@[j] != '-',
        decreases n - i,
    {
        i = i + 1;
    }
    proof {
        if i < n {
            assert(first_index(s@, '-') == i) by {
                if first_index(s@, '-') != i as int {
                    assert(first_index(s@, '-') >= 0 ==> s@[first_index(s@, '-')] == '-');
                }
            }
        } else {
            assert(first_index(s@, '-') < 0);
        }
    }
    if i < n && n - (i + 1) == 1 {
        let prefix = s.substring_char(0, i);
        let ch = s.get_char(i + 1);
        if str_eq(prefix, "C") || str_eq(prefix, "c") {
            return Some(Key { code: KeyCode::Char(ch), mods: MOD_CONTROL });
        } else if str_eq(prefix, "A") || str_eq(prefix, "a") || str_eq(prefix, "M") || str_eq(prefix, "m") {
            return Some(Key { code: KeyCode::Char(ch), mods: MOD_ALT });
        } else if str_eq(prefix, "S") || str_eq(prefix, "s") {
            return Some(Key { code: KeyCode::Char(ch), mods: MOD_SHIFT });
        } else {
            return None;
        }
    }
    named_key(s)
}

/// Parse a binding string into a chord.
///
/// A whole string that names a single key — a special key (`Enter`, `Tab`,
/// `Backspace`, `Esc`, ...), a modified key (`C-d`, `A-j`, `S-x`), or a lone
/// character — becomes one [`Key`]. Anything else is treated as a sequence of
/// single-character keys, so `gg`, `dd`, and `ge` parse as two keys each.
pub fn parse_chord(s: &str) -> (r: Result<KeyChord, FxError>)
    requires
        s@.len() < usize::MAX,
    ensures
        match r {
            Ok(c) => spec_parse_chord(s@) == Some(c.0@),
            Err(e) => spec_parse_chord(s@) is None && (e matches FxError::Config(m) && m@ == "Empty keybinding"@),
        },
{
    if s.unicode_len() == 0 {
        return Err(FxError::Config(String::from_str("Empty keybinding")));
    }
    if let Some(key) = parse_single_key(s) {
        let mut v: Vec<Key> = Vec::new();
        v.push(key);
        proof {
            assert(v@ =~= seq![key]);
        }
        return Ok(KeyChord(v));
    }
    let n = s.unicode_len();
    let mut keys: Vec<Key> = Vec::new();
    let mut i: usize = 0;
    proof {
        assert(char_keys(s@.take(0)) =~= Seq::<Key>::empty());
    }
    while i < n
        invariant
            n == s@.len(),
            i <= n,
            keys@ == char_keys(s@.take(i as int)),
        decreases n - i,
    {
        keys.push(Key::plain(KeyCode::Char(s.get_char(i))));
        proof {
            assert(char_keys(s@.take(i + 1)) =~= char_keys(s@.take(i as int)).push(char_key(s@[i as int])));
        }
        i = i + 1;
    }
    proof {
        assert(s@.take(n as int) =~= s@);
    }
    Ok(KeyChord(keys))
}

/// The bindings that configuration entries add, in order: entries with a chord
/// that does not parse or an unknown action are skipped.
pub open spec fn config_entries(b: Seq<(String, String)>) -> Seq<(Seq<Key>, Action)>
    decreases b.len(),
{
    if b.len() == 0 {
        Seq::empty()
    } else {
        let prev = config_entries(b.drop_last());
        match (spec_parse_chord(b.last().0@), spec_parse_action(b.last().1@)) {
            (Some(c), Some(a)) => prev.push((c, a)),
            _ => prev,
        }
    }
}

impl Keymap {
    /// Build the built-in keymap and overlay the bindings of the configuration,
    /// which maps chord strings (`ge`, `C-d`) to action names (`go_to_bottom`),
    /// in the order of the chord strings. Invalid entries are skipped.
    pub fn from_config(bindings: &[(String, String)]) -> (km: Keymap)
        requires
            forall|i: int| 0 <= i < bindings@.len() ==> (#[trigger] bindings@[i]).0@.len() < usize::MAX,
        ensures
            chord_entries(km.map@) == default_entries() + config_entries(bindings@),
            km.visual_overrides@ == default_visual(),
    {
        let mut km = Keymap::default_keymap();
        let mut i: usize = 0;
        proof {
            assert(bindings@.take(0) =~= Seq::<(String, String)>::empty());
            assert(default_entries() + config_entries(bindings@.take(0)) =~= default_entries());
        }
        while i < bindings.len()
            invariant
                i <= bindings@.len(),
                forall|j: int| 0 <= j < bindings@.len() ==> (#[trigger] bindings@[j]).0@.len() < usize::MAX,
                chord_entries(km.map@) == default_entries() + config_entries(bindings@.take(i as int)),
                km.visual_overrides@ == default_visual(),
            decreases bindings@.len() - i,
        {
            proof {
                assert(bindings@.take(i + 1).drop_last() =~= bindings@.take(i as int));
                assert(bindings@.take(i + 1).last() == bindings@[i as int]);
            }
            let chord_str = bindings[i].0.as_str();
            let action_str = bindings[i].1.as_str();
            match parse_chord(chord_str) {
                Ok(chord) => match parse_action(action_str) {
                    Some(action) => {
                        km.insert(chord, action);
                        proof {
                            assert(default_entries() + config_entries(bindings@.take(i + 1)) =~= (default_entries()
                                + config_entries(bindings@.take(i as int))).push((spec_parse_chord(chord_str@).unwrap(), action)));
                        }
                    },
                    None => {},
                },
                Err(_) => {},
            }
            i = i + 1;
        }
        proof {
            assert(bindings@.take(i as int) =~= bindings@);
        }
        km
    }
}

/// A binding just inserted is what its chord resolves to outside visual mode,
/// and every other chord keeps its binding.
pub proof fn law_insert_then_resolve(km: Keymap, km2: Keymap, c: Seq<Key>, a: Action, p: Seq<Key>)
    requires
        km2.bindings() == km.bindings().insert(c, a),
    ensures
        km2.spec_resolve(c, false) == Resolved::Action(a),
        p != c && km.bindings().contains_key(p) ==> km2.spec_resolve(p, false) == km.spec_resolve(p, false),
{
}

/// Every non-empty strict beginning of a bound chord that is not bound itself
/// waits for more keys (outside visual mode): adding `ge` keeps `g` a prefix.
pub proof fn law_chord_prefixes_wait(km: Keymap, i: int, n: int)
    requires
        0 <= i < chord_entries(km.map@).len(),
        1 <= n < chord_entries(km.map@)[i].0.len(),
        !km.bindings().contains_key(chord_entries(km.map@)[i].0.take(n)),
    ensures
        km.spec_resolve(chord_entries(km.map@)[i].0.take(n), false) == Resolved::Prefix,
{
    let p = chord_entries(km.map@)[i].0.take(n);
    assert(chord_entries(km.map@)[i].0.take(p.len() as int) == p);
}

/// In visual mode a single key with a visual binding acts at once, whatever
/// chords it begins.
pub proof fn law_visual_single_key(km: Keymap, k: Key)
    requires
        km.visual().contains_key(k),
    ensures
        km.spec_resolve(seq![k], true) == Resolved::Action(km.visual()[k]),
{
}

/// What the key loop remembers between keys: the keys of an unfinished
/// chord, whether the next key names a register (after `"`), and the register
/// key typed for the next action.
pub struct KeyState {
    pub pending: Vec<Key>,
    pub awaiting_register: bool,
    pub register: Option<char>,
}

/// The pending keys, the awaiting flag and the register key of a `KeyState`.
pub type KeyStateView = (Seq<Key>, bool, Option<char>);

impl View for KeyState {
    type V = KeyStateView;

    open spec fn view(&self) -> KeyStateView {
        (self.pending@, self.awaiting_register, self.register)
    }
}

/// What a key does to the key loop, and the action (with its register key)
/// it completes, if any. After `"` a character key is the register key and
/// any key is taken up by it. Otherwise the key extends the pending chord: a
/// prefix waits for more, a dead end (or a chord too long to count) drops the
/// chord and the register key, `enter_register` waits for a register key, and
/// any other action is done with the register key typed, which is used up.
pub open spec fn spec_feed(km: Keymap, st: KeyStateView, k: Key, visual: bool) -> (KeyStateView, Option<(Action, Option<char>)>) {
    if st.1 {
        ((st.0, false, match k.code {
            KeyCode::Char(c) => Some(c),
            _ => st.2,
        }), None)
    } else if st.0.len() + 1 >= usize::MAX {
        ((Seq::empty(), false, None), None)
    } else {
        let p = st.0.push(k);
        match km.spec_resolve(p, visual) {
            Resolved::Prefix => ((p, false, st.2), None),
            Resolved::Nothing => ((Seq::empty(), false, None), None),
            Resolved::Action(Action::EnterRegister) => ((Seq::empty(), true, st.2), None),
            Resolved::Action(a) => ((Seq::empty(), false, None), Some((a, st.2))),
        }
    }
}

impl KeyState {
    /// No keys pending, no register key.
    pub fn new() -> (r: Self)
        ensures
            r@ == (Seq::<Key>::empty(), false, None::<char>),
    {
        KeyState { pending: Vec::new(), awaiting_register: false, register: None }
    }

    /// Feed one key to the loop (in visual mode or not).
    pub fn feed(&mut self, km: &Keymap, k: Key, visual: bool) -> (r: Option<(Action, Option<char>)>)
        ensures
            (final(self)@, r) == spec_feed(*km, old(self)@, k, visual),
    {
        if self.awaiting_register {
            self.awaiting_register = false;
            match k.code {
                KeyCode::Char(c) => {
                    self.register = Some(c);
                },
                _ => {},
            }
            return None;
        }
        if self.pending.len() >= usize::MAX - 1 {
            self.pending = Vec::new();
            self.register = None;
            return None;
        }
        self.pending.push(k);
        match km.resolve(&self.pending, visual) {
            Resolved::Prefix => None,
            Resolved::Nothing => {
                self.pending = Vec::new();
                self.register = None;
                None
            },
            Resolved::Action(Action::EnterRegister) => {
                self.pending = Vec::new();
                self.awaiting_register = true;
                None
            },
            Resolved::Action(a) => {
                self.pending = Vec::new();
                let reg = self.register;
                self.register = None;
                Some((a, reg))
            },
        }
    }
}

/// A plain key (no modifier) of a character.
pub open spec fn plain(c: char) -> Key {
    Key { code: KeyCode::Char(c), mods: MOD_NONE }
}

/// A character key with the control modifier.
pub open spec fn ctrl(c: char) -> Key {
    Key { code: KeyCode::Char(c), mods: MOD_CONTROL }
}

/// The built-in keymap does what the manual says. Moving: `j`/`k` (and the arrows), `Ctrl-d`/`Ctrl-u`, `gg`/`G`, `l`/Enter/Right open, `h`/Left go to the parent, Tab and `Ctrl-o` walk the jump list.
#[verifier::spinoff_prover]
pub proof fn law_default_moving_keys(km: Keymap)
    requires
        chord_entries(km.map@) == default_entries(),
    ensures
        km.spec_resolve(seq![Key { code: KeyCode::Char('j'), mods: MOD_NONE }], false) == Resolved::Action(Action::MoveDown),
        km.spec_resolve(seq![Key { code: KeyCode::Down, mods: MOD_NONE }], false) == Resolved::Action(Action::MoveDown),
        km.spec_resolve(seq![Key { code: KeyCode::Char('k'), mods: MOD_NONE }], false) == Resolved::Action(Action::MoveUp),
        km.spec_resolve(seq![Key { code: KeyCode::Up, mods: MOD_NONE }], false) == Resolved::Action(Action::MoveUp),
        km.spec_resolve(seq![Key { code: KeyCode::Char('d'), mods: MOD_CONTROL }], false) == Resolved::Action(Action::HalfPageDown),
        km.spec_resolve(seq![Key { code: KeyCode::Char('u'), mods: MOD_CONTROL }], false) == Resolved::Action(Action::HalfPageUp),
        km.spec_resolve(seq![Key { code: KeyCode::Char('g'), mods: MOD_NONE }, Key { code: KeyCode::Char('g'), mods: MOD_NONE }], false) == Resolved::Action(Action::GoToTop),
        km.spec_resolve(seq![Key { code: KeyCode::Char('G'), mods: MOD_NONE }], false) == Resolved::Action(Action::GoToBottom),
        km.spec_resolve(seq![Key { code: KeyCode::Char('l'), mods: MOD_NONE }], false) == Resolved::Action(Action::Open),
        km.spec_resolve(seq![Key { code: KeyCode::Enter, mods: MOD_NONE }], false) == Resolved::Action(Action::Open),
        km.spec_resolve(seq![Key { code: KeyCode::Right, mods: MOD_NONE }], false) == Resolved::Action(Action::Open),
        km.spec_resolve(seq![Key { code: KeyCode::Char('o'), mods: MOD_NONE }], false) == Resolved::Action(Action::OpenNewWindow),
        km.spec_resolve(seq![Key { code: KeyCode::Char('h'), mods: MOD_NONE }], false) == Resolved::Action(Action::GoToParent),
        km.spec_resolve(seq![Key { code: KeyCode::Left, mods: MOD_NONE }], false) == Resolved::Action(Action::GoToParent),
        km.spec_resolve(seq![Key { code: KeyCode::Tab, mods: MOD_NONE }], false) == Resolved::Action(Action::JumpForward),
        km.spec_resolve(seq![Key { code: KeyCode::Char('o'), mods: MOD_CONTROL }], false) == Resolved::Action(Action::JumpBackward),
{
    let e = default_entries();
    assert(km.spec_resolve(seq![Key { code: KeyCode::Char('j'), mods: MOD_NONE }], false) == Resolved::Action(Action::MoveDown)) by {
        lemma_assoc_found(e, seq![Key { code: KeyCode::Char('j'), mods: MOD_NONE }], 1);
    }
    assert(km.spec_resolve(seq![Key { code: KeyCode::Down, mods: MOD_NONE }], false) == Resolved::Action(Action::MoveDown)) by {
        lemma_assoc_found(e, seq![Key { code: KeyCode::Down, mods: MOD_NONE }], 2);
    }
    assert(km.spec_resolve(seq![Key { code: KeyCode::Char('k'), mods: MOD_NONE }], false) == Resolved::Action(Action::MoveUp)) by {
        lemma_assoc_found(e, seq![Key { code: KeyCode::Char('k'), mods: MOD_NONE }], 3);
    }
    assert(km.spec_resolve(seq![Key { code: KeyCode::Up, mods: MOD_NONE }], false) == Resolved::Action(Action::MoveUp)) by {
        lemma_assoc_found(e, seq![Key { code: KeyCode::Up, mods: MOD_NONE }], 4);
    }
    assert(km.spec_resolve(seq![Key { code: KeyCode::Char('d'), mods: MOD_CONTROL }], false) == Resolved::Action(Action::HalfPageDown)) by {
        lemma_assoc_found(e, seq![Key { code: KeyCode::Char('d'), mods: MOD_CONTROL }], 5);
    }
    assert(km.spec_resolve(seq![Key { code: KeyCode::Char('u'), mods: MOD_CONTROL }], false) == Resolved::Action(Action::HalfPageUp)) by {
        lemma_assoc_found(e, seq![Key { code: KeyCode::Char('u'), mods: MOD_CONTROL }], 6);
    }
    assert(km.spec_resolve(seq![Key { code: KeyCode::Char('g'), mods: MOD_NONE }, Key { code: KeyCode::Char('g'), mods: MOD_NONE }], false) == Resolved::Action(Action::GoToTop)) by {
        lemma_assoc_found(e, seq![Key { code: KeyCode::Char('g'), mods: MOD_NONE }, Key { code: KeyCode::Char('g'), mods: MOD_NONE }], 7);
    }
    assert(km.spec_resolve(seq![Key { code: KeyCode::Char('G'), mods: MOD_NONE }], false) == Resolved::Action(Action::GoToBottom)) by {
        lemma_assoc_found(e, seq![Key { code: KeyCode::Char('G'), mods: MOD_NONE }], 8);
    }
    assert(km.spec_resolve(seq![Key { code: KeyCode::Char('l'), mods: MOD_NONE }], false) == Resolved::Action(Action::Open)) by {
        lemma_assoc_found(e, seq![Key { code: KeyCode::Char('l'), mods: MOD_NONE }], 9);
    }
    assert(km.spec_resolve(seq![Key { code: KeyCode::Enter, mods: MOD_NONE }], false) == Resolved::Action(Action::Open)) by {
        lemma_assoc_found(e, seq![Key { code: KeyCode::Enter, mods: MOD_NONE }], 10);
    }
    assert(km.spec_resolve(seq![Key { code: KeyCode::Right, mods: MOD_NONE }], false) == Resolved::Action(Action::Open)) by {
        lemma_assoc_found(e, seq![Key { code: KeyCode::Right, mods: MOD_NONE }], 11);
    }
    assert(km.spec_resolve(seq![Key { code: KeyCode::Char('o'), mods: MOD_NONE }], false) == Resolved::Action(Action::OpenNewWindow)) by {
        lemma_assoc_found(e, seq![Key { code: KeyCode::Char('o'), mods: MOD_NONE }], 12);
    }
    assert(km.spec_resolve(seq![Key { code: KeyCode::Char('h'), mods: MOD_NONE }], false) == Resolved::Action(Action::GoToParent)) by {
        lemma_assoc_found(e, seq![Key { code: KeyCode::Char('h'), mods: MOD_NONE }], 13);
    }
    assert(km.spec_resolve(seq![Key { code: KeyCode::Left, mods: MOD_NONE }], false) == Resolved::Action(Action::GoToParent)) by {
        lemma_assoc_found(e, seq![Key { code: KeyCode::Left, mods: MOD_NONE }], 14);
    }
    assert(km.spec_resolve(seq![Key { code: KeyCode::Tab, mods: MOD_NONE }], false) == Resolved::Action(Action::JumpForward)) by {
        lemma_assoc_found(e, seq![Key { code: KeyCode::Tab, mods: MOD_NONE }], 15);
    }
    assert(km.spec_resolve(seq![Key { code: KeyCode::Char('o'), mods: MOD_CONTROL }], false) == Resolved::Action(Action::JumpBackward)) by {
        lemma_assoc_found(e, seq![Key { code: KeyCode::Char('o'), mods: MOD_CONTROL }], 16);
    }
}

/// The built-in keymap does what the manual says. Items: `e` unpacks, `dd` deletes, `yy` yanks, `p` puts, `u` undoes and `Ctrl-r` redoes.
#[verifier::spinoff_prover]
pub proof fn law_default_item_keys(km: Keymap)
    requires
        chord_entries(km.map@) == default_entries(),
    ensures
        km.spec_resolve(seq![Key { code: KeyCode::Char('e'), mods: MOD_NONE }], false) == Resolved::Action(Action::Unpack),
        km.spec_resolve(seq![Key { code: KeyCode::Char('d'), mods: MOD_NONE }, Key { code: KeyCode::Char('d'), mods: MOD_NONE }], false) == Resolved::Action(Action::Delete),
        km.spec_resolve(seq![Key { code: KeyCode::Char('y'), mods: MOD_NONE }, Key { code: KeyCode::Char('y'), mods: MOD_NONE }], false) == Resolved::Action(Action::Yank),
        km.spec_resolve(seq![Key { code: KeyCode::Char('p'), mods: MOD_NONE }], false) == Resolved::Action(Action::Put),
        km.spec_resolve(seq![Key { code: KeyCode::Char('u'), mods: MOD_NONE }], false) == Resolved::Action(Action::Undo),
        km.spec_resolve(seq![Key { code: KeyCode::Char('r'), mods: MOD_CONTROL }], false) == Resolved::Action(Action::Redo),
{
    let e = default_entries();
    assert(km.spec_resolve(seq![Key { code: KeyCode::Char('e'), mods: MOD_NONE }], false) == Resolved::Action(Action::Unpack)) by {
        lemma_assoc_found(e, seq![Key { code: KeyCode::Char('e'), mods: MOD_NONE }], 17);
    }
    assert(km.spec_resolve(seq![Key { code: KeyCode::Char('d'), mods: MOD_NONE }, Key { code: KeyCode::Char('d'), mods: MOD_NONE }], false) == Resolved::Action(Action::Delete)) by {
        lemma_assoc_found(e, seq![Key { code: KeyCode::Char('d'), mods: MOD_NONE }, Key { code: KeyCode::Char('d'), mods: MOD_NONE }], 18);
    }
    assert(km.spec_resolve(seq![Key { code: KeyCode::Char('y'), mods: MOD_NONE }, Key { code: KeyCode::Char('y'), mods: MOD_NONE }], false) == Resolved::Action(Action::Yank)) by {
        lemma_assoc_found(e, seq![Key { code: KeyCode::Char('y'), mods: MOD_NONE }, Key { code: KeyCode::Char('y'), mods: MOD_NONE }], 19);
    }
    assert(km.spec_resolve(seq![Key { code: KeyCode::Char('p'), mods: MOD_NONE }], false) == Resolved::Action(Action::Put)) by {
        lemma_assoc_found(e, seq![Key { code: KeyCode::Char('p'), mods: MOD_NONE }], 20);
    }
    assert(km.spec_resolve(seq![Key { code: KeyCode::Char('u'), mods: MOD_NONE }], false) == Resolved::Action(Action::Undo)) by {
        lemma_assoc_found(e, seq![Key { code: KeyCode::Char('u'), mods: MOD_NONE }], 21);
    }
    assert(km.spec_resolve(seq![Key { code: KeyCode::Char('r'), mods: MOD_CONTROL }], false) == Resolved::Action(Action::Redo)) by {
        lemma_assoc_found(e, seq![Key { code: KeyCode::Char('r'), mods: MOD_CONTROL }], 22);
    }
}

/// The built-in keymap does what the manual says. The view: `t` sorts, Backspace shows hidden items, `v` the preview, `s` the split, `V` selects, Esc resets, `n`/`N` search, Alt-`j`/`k` scroll the preview.
#[verifier::spinoff_prover]
pub proof fn law_default_view_keys(km: Keymap)
    requires
        chord_entries(km.map@) == default_entries(),
    ensures
        km.spec_resolve(seq![Key { code: KeyCode::Char('t'), mods: MOD_NONE }], false) == Resolved::Action(Action::ToggleSort),
        km.spec_resolve(seq![Key { code: KeyCode::Backspace, mods: MOD_NONE }], false) == Resolved::Action(Action::ToggleHidden),
        km.spec_resolve(seq![Key { code: KeyCode::Char('v'), mods: MOD_NONE }], false) == Resolved::Action(Action::TogglePreview),
        km.spec_resolve(seq![Key { code: KeyCode::Char('s'), mods: MOD_NONE }], false) == Resolved::Action(Action::ToggleSplit),
        km.spec_resolve(seq![Key { code: KeyCode::Char('V'), mods: MOD_NONE }], false) == Resolved::Action(Action::ToggleVisual),
        km.spec_resolve(seq![Key { code: KeyCode::Esc, mods: MOD_NONE }], false) == Resolved::Action(Action::ResetSelection),
        km.spec_resolve(seq![Key { code: KeyCode::Char('n'), mods: MOD_NONE }], false) == Resolved::Action(Action::SearchNext),
        km.spec_resolve(seq![Key { code: KeyCode::Char('N'), mods: MOD_NONE }], false) == Resolved::Action(Action::SearchPrev),
        km.spec_resolve(seq![Key { code: KeyCode::Char('j'), mods: MOD_ALT }], false) == Resolved::Action(Action::ScrollPreviewDown),
        km.spec_resolve(seq![Key { code: KeyCode::Down, mods: MOD_ALT }], false) == Resolved::Action(Action::ScrollPreviewDown),
        km.spec_resolve(seq![Key { code: KeyCode::Char('k'), mods: MOD_ALT }], false) == Resolved::Action(Action::ScrollPreviewUp),
        km.spec_resolve(seq![Key { code: KeyCode::Up, mods: MOD_ALT }], false) == Resolved::Action(Action::ScrollPreviewUp),
{
    let e = default_entries();
    assert(km.spec_resolve(seq![Key { code: KeyCode::Char('t'), mods: MOD_NONE }], false) == Resolved::Action(Action::ToggleSort)) by {
        lemma_assoc_found(e, seq![Key { code: KeyCode::Char('t'), mods: MOD_NONE }], 23);
    }
    assert(km.spec_resolve(seq![Key { code: KeyCode::Backspace, mods: MOD_NONE }], false) == Resolved::Action(Action::ToggleHidden)) by {
        lemma_assoc_found(e, seq![Key { code: KeyCode::Backspace, mods: MOD_NONE }], 24);
    }
    assert(km.spec_resolve(seq![Key { code: KeyCode::Char('v'), mods: MOD_NONE }], false) == Resolved::Action(Action::TogglePreview)) by {
        lemma_assoc_found(e, seq![Key { code: KeyCode::Char('v'), mods: MOD_NONE }], 25);
    }
    assert(km.spec_resolve(seq![Key { code: KeyCode::Char('s'), mods: MOD_NONE }], false) == Resolved::Action(Action::ToggleSplit)) by {
        lemma_assoc_found(e, seq![Key { code: KeyCode::Char('s'), mods: MOD_NONE }], 26);
    }
    assert(km.spec_resolve(seq![Key { code: KeyCode::Char('V'), mods: MOD_NONE }], false) == Resolved::Action(Action::ToggleVisual)) by {
        lemma_assoc_found(e, seq![Key { code: KeyCode::Char('V'), mods: MOD_NONE }], 27);
    }
    assert(km.spec_resolve(seq![Key { code: KeyCode::Esc, mods: MOD_NONE }], false) == Resolved::Action(Action::ResetSelection)) by {
        lemma_assoc_found(e, seq![Key { code: KeyCode::Esc, mods: MOD_NONE }], 28);
    }
    assert(km.spec_resolve(seq![Key { code: KeyCode::Char('n'), mods: MOD_NONE }], false) == Resolved::Action(Action::SearchNext)) by {
        lemma_assoc_found(e, seq![Key { code: KeyCode::Char('n'), mods: MOD_NONE }], 29);
    }
    assert(km.spec_resolve(seq![Key { code: KeyCode::Char('N'), mods: MOD_NONE }], false) == Resolved::Action(Action::SearchPrev)) by {
        lemma_assoc_found(e, seq![Key { code: KeyCode::Char('N'), mods: MOD_NONE }], 30);
    }
    assert(km.spec_resolve(seq![Key { code: KeyCode::Char('j'), mods: MOD_ALT }], false) == Resolved::Action(Action::ScrollPreviewDown)) by {
        lemma_assoc_found(e, seq![Key { code: KeyCode::Char('j'), mods: MOD_ALT }], 31);
    }
    assert(km.spec_resolve(seq![Key { code: KeyCode::Down, mods: MOD_ALT }], false) == Resolved::Action(Action::ScrollPreviewDown)) by {
        lemma_assoc_found(e, seq![Key { code: KeyCode::Down, mods: MOD_ALT }], 32);
    }
    assert(km.spec_resolve(seq![Key { code: KeyCode::Char('k'), mods: MOD_ALT }], false) == Resolved::Action(Action::ScrollPreviewUp)) by {
        lemma_assoc_found(e, seq![Key { code: KeyCode::Char('k'), mods: MOD_ALT }], 33);
    }
    assert(km.spec_resolve(seq![Key { code: KeyCode::Up, mods: MOD_ALT }], false) == Resolved::Action(Action::ScrollPreviewUp)) by {
        lemma_assoc_found(e, seq![Key { code: KeyCode::Up, mods: MOD_ALT }], 34);
    }
}

/// The built-in keymap does what the manual says. Prompts and quitting: `i`/`I` insert, `c` renames, `/` searches, `:` opens the command line, `"` names a register, `z` jumps with zoxide, `ZZ`/`ZQ` quit.
#[verifier::spinoff_prover]
pub proof fn law_default_prompt_keys(km: Keymap)
    requires
        chord_entries(km.map@) == default_entries(),
    ensures
        km.spec_resolve(seq![Key { code: KeyCode::Char('i'), mods: MOD_NONE }], false) == Resolved::Action(Action::EnterInsert),
        km.spec_resolve(seq![Key { code: KeyCode::Char('I'), mods: MOD_NONE }], false) == Resolved::Action(Action::EnterInsertDir),
        km.spec_resolve(seq![Key { code: KeyCode::Char('c'), mods: MOD_NONE }], false) == Resolved::Action(Action::Rename),
        km.spec_resolve(seq![Key { code: KeyCode::Char('/'), mods: MOD_NONE }], false) == Resolved::Action(Action::EnterSearch),
        km.spec_resolve(seq![Key { code: KeyCode::Char(':'), mods: MOD_NONE }], false) == Resolved::Action(Action::EnterCommandLine),
        km.spec_resolve(seq![Key { code: KeyCode::Char('"'), mods: MOD_NONE }], false) == Resolved::Action(Action::EnterRegister),
        km.spec_resolve(seq![Key { code: KeyCode::Char('z'), mods: MOD_NONE }], false) == Resolved::Action(Action::ZoxideJump),
        km.spec_resolve(seq![Key { code: KeyCode::Char('Z'), mods: MOD_NONE }, Key { code: KeyCode::Char('Z'), mods: MOD_NONE }], false) == Resolved::Action(Action::Quit),
        km.spec_resolve(seq![Key { code: KeyCode::Char('Z'), mods: MOD_NONE }, Key { code: KeyCode::Char('Q'), mods: MOD_NONE }], false) == Resolved::Action(Action::QuitWithoutSave),
{
    let e = default_entries();
    assert(km.spec_resolve(seq![Key { code: KeyCode::Char('i'), mods: MOD_NONE }], false) == Resolved::Action(Action::EnterInsert)) by {
        lemma_assoc_found(e, seq![Key { code: KeyCode::Char('i'), mods: MOD_NONE }], 35);
    }
    assert(km.spec_resolve(seq![Key { code: KeyCode::Char('I'), mods: MOD_NONE }], false) == Resolved::Action(Action::EnterInsertDir)) by {
        lemma_assoc_found(e, seq![Key { code: KeyCode::Char('I'), mods: MOD_NONE }], 36);
    }
    assert(km.spec_resolve(seq![Key { code: KeyCode::Char('c'), mods: MOD_NONE }], false) == Resolved::Action(Action::Rename)) by {
        lemma_assoc_found(e, seq![Key { code: KeyCode::Char('c'), mods: MOD_NONE }], 37);
    }
    assert(km.spec_resolve(seq![Key { code: KeyCode::Char('/'), mods: MOD_NONE }], false) == Resolved::Action(Action::EnterSearch)) by {
        lemma_assoc_found(e, seq![Key { code: KeyCode::Char('/'), mods: MOD_NONE }], 38);
    }
    assert(km.spec_resolve(seq![Key { code: KeyCode::Char(':'), mods: MOD_NONE }], false) == Resolved::Action(Action::EnterCommandLine)) by {
        lemma_assoc_found(e, seq![Key { code: KeyCode::Char(':'), mods: MOD_NONE }], 39);
    }
    assert(km.spec_resolve(seq![Key { code: KeyCode::Char('"'), mods: MOD_NONE }], false) == Resolved::Action(Action::EnterRegister)) by {
        lemma_assoc_found(e, seq![Key { code: KeyCode::Char('"'), mods: MOD_NONE }], 40);
    }
    assert(km.spec_resolve(seq![Key { code: KeyCode::Char('z'), mods: MOD_NONE }], false) == Resolved::Action(Action::ZoxideJump)) by {
        lemma_assoc_found(e, seq![Key { code: KeyCode::Char('z'), mods: MOD_NONE }], 41);
    }
    assert(km.spec_resolve(seq![Key { code: KeyCode::Char('Z'), mods: MOD_NONE }, Key { code: KeyCode::Char('Z'), mods: MOD_NONE }], false) == Resolved::Action(Action::Quit)) by {
        lemma_assoc_found(e, seq![Key { code: KeyCode::Char('Z'), mods: MOD_NONE }, Key { code: KeyCode::Char('Z'), mods: MOD_NONE }], 42);
    }
    assert(km.spec_resolve(seq![Key { code: KeyCode::Char('Z'), mods: MOD_NONE }, Key { code: KeyCode::Char('Q'), mods: MOD_NONE }], false) == Resolved::Action(Action::QuitWithoutSave)) by {
        lemma_assoc_found(e, seq![Key { code: KeyCode::Char('Z'), mods: MOD_NONE }, Key { code: KeyCode::Char('Q'), mods: MOD_NONE }], 43);
    }
}

/// In visual mode `d` deletes and `y` yanks the selection at once.
pub proof fn law_default_visual_keys(km: Keymap)
    requires
        km.visual_overrides@ == default_visual(),
    ensures
        km.spec_resolve(seq![plain('d')], true) == Resolved::Action(Action::Delete),
        km.spec_resolve(seq![plain('y')], true) == Resolved::Action(Action::Yank),
{
    let v = default_visual();
    lemma_assoc_found(v, plain('d'), 1);
    lemma_assoc_found(v, plain('y'), 2);
}

} // verus!
