//! What an action does: the change to the state that the library makes, and
//! the outside work (file system, processes, prompts) left to the program.
use vstd::prelude::*;
use crate::cursor::{cursor_fits, go_to_bottom, half_rows};
use crate::errors::FxError;
use crate::keymap::{Action, KeyCode};
use crate::layout::{Layout, Num, Side, Split, BEGINNING_ROW};
use crate::session::SortKey;

use crate::state::{
    arranged, buffer_views, is_match, is_yank, reg_lookup, register_key, selected_views, selection_set,
    selection_step_down, selection_step_up, selection_steps_down, selection_steps_up, spec_register_key,
    first_named, item_names, CursorPlan, FileType, ItemBuffer, ItemInfo, Move, State,
};

verus! {

/// The prompts an action opens.
#[derive(Debug, Clone, Copy, PartialEq, Eq, Structural)]
pub enum PromptKind {
    NewFile,
    NewDir,
    Rename,
    Search,
    CommandLine,
    Zoxide,
}

/// What is left to do once an action has changed the state.
#[derive(Debug)]
pub enum Effect {
    /// Nothing changed.
    Nothing,
    /// The state changed: draw it again.
    Redraw,
    /// Read the current directory again, then draw.
    Relist,
    /// The layout changed: fit it to the terminal again, then draw.
    Relayout,
    Fail(FxError),
    Warn(String),
    Info(String),
    /// Enter this directory.
    EnterDir(String, Move),
    /// Open the item at this index with its command.
    OpenFile(usize),
    /// Open the item at this index in a new window.
    OpenInNewWindow(usize),
    /// Enter the parent of the current directory.
    GoParent,
    /// Jump to this directory of the jump list (backward or not), if it exists.
    Jump(String, bool),
    /// Unpack the archive under the cursor.
    Unpack,
    /// Move these items to the trash and record them in register (appending or not).
    Delete(Vec<ItemBuffer>, Option<char>, bool),
    /// This many items were yanked.
    Yanked(usize),
    /// Put these items into the current directory.
    Put(Vec<ItemBuffer>),
    /// Undo or redo the operation at this index.
    Undo(usize),
    Redo(usize),
    Prompt(PromptKind),
    /// Quit, exporting the last directory or not.
    Quit(bool),
}

/// Whether the cursor is on an item and a row of the list, with a list short
/// enough for the rows to be counted.
pub open spec fn cursor_ready(st: State) -> bool {
    &&& st.layout.terminal_row >= 4
    &&& st.list@.len() <= u16::MAX
    &&& cursor_fits(st.layout.nums, st.layout.y, st.layout.terminal_row, st.list@.len())
}

/// Where `G` puts the cursor (see `go_to_bottom`).
pub open spec fn bottom_of(nums: Num, row: u16, len: nat) -> Option<(Num, u16)> {
    if len == 0 {
        None
    } else if len > row - BEGINNING_ROW {
        Some((Num { index: (len - 1) as usize, skip: (len + BEGINNING_ROW - row) as u16 }, (row - 1) as u16))
    } else {
        Some((Num { index: (len - 1) as usize, skip: nums.skip }, (len + BEGINNING_ROW - 1) as u16))
    }
}

/// The register and append flag that a register key typed before an action
/// asks for: none typed means the default registers; a key that names no
/// register cancels the action.
pub open spec fn register_choice(typed: Option<char>) -> Option<(Option<char>, bool)> {
    match typed {
        None => Some((None, false)),
        Some(c) => match spec_register_key(c) {
            Some((r, a)) => Some((Some(r), a)),
            None => None,
        },
    }
}

/// The items an action applies to: the selection in visual mode, otherwise
/// the item under the cursor (none when there is no item there).
pub open spec fn target_views(st: State) -> Option<Seq<(FileType, Seq<char>, Seq<char>)>> {
    match st.v_start {
        Some(_) => Some(selected_views(st.list@)),
        None => if st.layout.nums.index < st.list@.len() {
            let item = st.list@[st.layout.nums.index as int];
            Some(seq![(item.file_type, item.file_name@, item.file_path@)])
        } else {
            None
        },
    }
}

/// The layout with the sort key switched.
pub open spec fn other_sort(k: SortKey) -> SortKey {
    match k {
        SortKey::Name => SortKey::Time,
        SortKey::Time => SortKey::Name,
    }
}

pub open spec fn other_split(s: Split) -> Split {
    match s {
        Split::Vertical => Split::Horizontal,
        Split::Horizontal => Split::Vertical,
    }
}

/// What `State::apply` does: from the state `a`, the action `action` (typed
/// after the register key `typed`, if any) leads to the state `b` and leaves
/// the effect `e` to the program.
pub open spec fn spec_apply(a: State, action: Action, typed: Option<char>, b: State, e: Effect) -> bool {
    let visual = a.v_start is Some;
    let index = a.layout.nums.index;
    let len = a.list@.len();
    let unchanged = b == a;
    match action {
        Action::MoveDown => if cursor_ready(a) {
            match selection_step_down(a.layout.nums, a.layout.y, a.layout.terminal_row, a.list@, a.v_start) {
                Some((n, y1, l1)) => {
                    &&& b == (State { list: b.list, layout: Layout { nums: n, y: y1, ..a.layout }, ..a })
                    &&& b.list@ == l1
                    &&& e == Effect::Redraw
                },
                None => unchanged && e == Effect::Nothing,
            }
        } else {
            unchanged && e == Effect::Nothing
        },
        Action::MoveUp => if cursor_ready(a) {
            match selection_step_up(a.layout.nums, a.layout.y, a.list@, a.v_start) {
                Some((n, y1, l1)) => {
                    &&& b == (State { list: b.list, layout: Layout { nums: n, y: y1, ..a.layout }, ..a })
                    &&& b.list@ == l1
                    &&& e == Effect::Redraw
                },
                None => unchanged && e == Effect::Nothing,
            }
        } else {
            unchanged && e == Effect::Nothing
        },
        Action::HalfPageDown => if cursor_ready(a) {
            &&& (b.layout.nums, b.layout.y, b.list@) == selection_steps_down(
                a.layout.nums, a.layout.y, a.layout.terminal_row, a.list@, a.v_start, half_rows(a.layout.terminal_row))
            &&& b == (State { list: b.list, layout: Layout { nums: b.layout.nums, y: b.layout.y, ..a.layout }, ..a })
            &&& e == Effect::Redraw
        } else {
            unchanged && e == Effect::Nothing
        },
        Action::HalfPageUp => if cursor_ready(a) {
            &&& (b.layout.nums, b.layout.y, b.list@) == selection_steps_up(
                a.layout.nums, a.layout.y, a.list@, a.v_start, half_rows(a.layout.terminal_row))
            &&& b == (State { list: b.list, layout: Layout { nums: b.layout.nums, y: b.layout.y, ..a.layout }, ..a })
            &&& e == Effect::Redraw
        } else {
            unchanged && e == Effect::Nothing
        },
        Action::GoToTop => {
            &&& b == (State { list: b.list, layout: Layout { nums: Num { index: 0, skip: 0 }, y: BEGINNING_ROW, ..a.layout }, ..a })
            &&& match a.v_start {
                Some(s) => selection_set(a.list@, b.list@, |i: int| i <= s),
                None => b.list@ == a.list@,
            }
            &&& e == Effect::Redraw
        },
        Action::GoToBottom => {
            &&& b == (State { list: b.list, layout: b.layout, ..a })
            &&& match a.v_start {
                Some(s) => selection_set(a.list@, b.list@, |i: int| i >= s),
                None => b.list@ == a.list@,
            }
            &&& b.layout == if len <= u16::MAX - BEGINNING_ROW && a.layout.terminal_row >= 4 {
                match bottom_of(a.layout.nums, a.layout.terminal_row, len) {
                    Some((n, y1)) => Layout { nums: n, y: y1, ..a.layout },
                    None => a.layout,
                }
            } else {
                a.layout
            }
            &&& e == Effect::Redraw
        },
        Action::Open => unchanged && if visual {
            e == Effect::Nothing
        } else if index >= len {
            e == Effect::Fail(FxError::GetItem)
        } else {
            let item = a.list@[index as int];
            if item.file_type == FileType::Directory {
                e matches Effect::EnterDir(p, m) && p@ == item.file_path@ && m == Move::Down
            } else {
                match item.symlink_dir_path {
                    Some(d) => e matches Effect::EnterDir(p, m) && p@ == d@ && m == Move::Down,
                    None => e == Effect::OpenFile(index),
                }
            }
        },
        Action::OpenNewWindow => unchanged && if visual {
            e == Effect::Nothing
        } else if index < len {
            e == Effect::OpenInNewWindow(index)
        } else {
            e == Effect::Fail(FxError::GetItem)
        },
        Action::GoToParent => unchanged && e == if visual { Effect::Nothing } else { Effect::GoParent },
        Action::JumpForward => unchanged && if a.jumplist.list@.len() == 0 {
            e == Effect::Nothing
        } else {
            match a.jumplist.forward() {
                Some(p) => e matches Effect::Jump(q, back) && q@ == p && !back,
                None => e == Effect::Nothing,
            }
        },
        Action::JumpBackward => unchanged && if a.jumplist.list@.len() == 0 {
            e == Effect::Nothing
        } else {
            match a.jumplist.backward() {
                Some(p) => e matches Effect::Jump(q, back) && q@ == p && back,
                None => e == Effect::Nothing,
            }
        },
        Action::Unpack => unchanged && e == if !visual && len < usize::MAX { Effect::Unpack } else { Effect::Nothing },
        Action::Delete => unchanged && if a.is_ro {
            e matches Effect::Warn(m) && m@ == "Cannot delete item in this directory."@
        } else {
            match register_choice(typed) {
                None => e == Effect::Nothing,
                Some((r, ap)) => match target_views(a) {
                    Some(v) => e matches Effect::Delete(t, r2, ap2) && buffer_views(t@) == v && r2 == r && ap2 == ap,
                    None => e == Effect::Fail(FxError::GetItem),
                },
            }
        },
        Action::Yank => match register_choice(typed) {
            None => unchanged && e == Effect::Nothing,
            Some((r, ap)) => match target_views(a) {
                Some(v) => {
                    &&& is_yank(a.registers, b.registers, v, r, ap)
                    &&& b.registers.wf()
                    &&& selection_set(a.list@, b.list@, |i: int| false)
                    &&& b == (State { list: b.list, registers: b.registers, v_start: None, ..a })
                    &&& e == Effect::Yanked(v.len() as usize)
                },
                None => unchanged && e == Effect::Fail(FxError::GetItem),
            },
        },
        Action::Put => unchanged && if visual {
            e == Effect::Nothing
        } else if a.is_ro {
            e matches Effect::Warn(m) && m@ == "Cannot put into this directory."@
        } else {
            match reg_lookup(a.registers, KeyCode::Char(match typed { Some(c) => c, None => '"' })) {
                Some(v) => if v.len() > 0 {
                    e matches Effect::Put(t) && buffer_views(t@) == v
                } else {
                    e == Effect::Nothing
                },
                None => e == Effect::Nothing,
            }
        },
        Action::Undo => unchanged && if visual {
            e == Effect::Nothing
        } else {
            match a.operations.undo_index() {
                Some(i) => e == Effect::Undo(i as usize),
                None => e matches Effect::Info(m) && m@ == "No operations left."@,
            }
        },
        Action::Redo => unchanged && if visual {
            e == Effect::Nothing
        } else {
            match a.operations.redo_index() {
                Some(i) => e == Effect::Redo(i as usize),
                None => e matches Effect::Info(m) && m@ == "No operations left."@,
            }
        },
        Action::ToggleSort => if visual {
            unchanged && e == Effect::Nothing
        } else {
            &&& b == (State { list: b.list, layout: Layout { sort_by: other_sort(a.layout.sort_by), ..a.layout }, ..a })
            &&& arranged(a.list@, other_sort(a.layout.sort_by), a.layout.show_hidden, b.list@)
            &&& e == Effect::Redraw
        },
        Action::ToggleHidden => if visual {
            unchanged && e == Effect::Nothing
        } else {
            &&& b == (State {
                layout: Layout {
                    show_hidden: !a.layout.show_hidden,
                    nums: Num { index: 0, skip: 0 },
                    y: BEGINNING_ROW,
                    ..a.layout
                },
                ..a
            })
            &&& e == Effect::Relist
        },
        Action::TogglePreview => {
            &&& b == (State {
                layout: Layout {
                    side: if a.layout.side == Side::Preview || a.layout.side == Side::Reg { Side::Empty } else { Side::Preview },
                    ..a.layout
                },
                ..a
            })
            &&& e == Effect::Relayout
        },
        Action::ToggleSplit => {
            &&& b == (State { layout: Layout { split: other_split(a.layout.split), ..a.layout }, ..a })
            &&& e == Effect::Relayout
        },
        Action::ToggleVisual => if visual {
            &&& selection_set(a.list@, b.list@, |i: int| false)
            &&& b == (State { list: b.list, v_start: None, ..a })
            &&& e == Effect::Redraw
        } else if len == 0 {
            unchanged && e == Effect::Nothing
        } else if index >= len {
            unchanged && e == Effect::Fail(FxError::GetItem)
        } else {
            &&& b.list@ == a.list@.update(index as int, ItemInfo { selected: true, ..a.list@[index as int] })
            &&& b == (State { list: b.list, v_start: Some(index), ..a })
            &&& e == Effect::Redraw
        },
        Action::ResetSelection => {
            &&& selection_set(a.list@, b.list@, |i: int| false)
            &&& b == (State { list: b.list, v_start: None, keyword: None, ..a })
            &&& e == Effect::Redraw
        },
        Action::SearchNext => if visual || index == usize::MAX {
            unchanged && e == Effect::Nothing
        } else {
            match a.keyword {
                None => unchanged && e == Effect::Nothing,
                Some(kw) => if exists|j: int| index < j && #[trigger] is_match(a.list@, kw@, j) {
                    let i = b.layout.nums.index as int;
                    &&& index < i
                    &&& is_match(a.list@, kw@, i)
                    &&& forall|j: int| index < j < i ==> !#[trigger] is_match(a.list@, kw@, j)
                    &&& b == (State {
                        layout: Layout {
                            nums: Num { index: i as usize, skip: #[verifier::truncate] (i as u16) },
                            y: BEGINNING_ROW,
                            ..a.layout
                        },
                        ..a
                    })
                    &&& e == Effect::Redraw
                } else {
                    unchanged && e == Effect::Nothing
                },
            }
        },
        Action::SearchPrev => if visual {
            unchanged && e == Effect::Nothing
        } else {
            match a.keyword {
                None => unchanged && e == Effect::Nothing,
                Some(kw) => if exists|j: int| j < index && #[trigger] is_match(a.list@, kw@, j) {
                    let i = b.layout.nums.index as int;
                    &&& i < index
                    &&& is_match(a.list@, kw@, i)
                    &&& forall|j: int| i < j < index ==> !#[trigger] is_match(a.list@, kw@, j)
                    &&& b == (State {
                        layout: Layout {
                            nums: Num { index: i as usize, skip: #[verifier::truncate] (i as u16) },
                            y: BEGINNING_ROW,
                            ..a.layout
                        },
                        ..a
                    })
                    &&& e == Effect::Redraw
                } else {
                    unchanged && e == Effect::Nothing
                },
            }
        },
        Action::ScrollPreviewDown => if a.layout.side == Side::Preview && index < len
            && a.list@[index as int].preview_scroll < usize::MAX {
            &&& b.list@ == a.list@.update(index as int, ItemInfo {
                preview_scroll: (a.list@[index as int].preview_scroll + 1) as usize,
                ..a.list@[index as int]
            })
            &&& b == (State { list: b.list, ..a })
            &&& e == Effect::Redraw
        } else {
            unchanged && e == Effect::Nothing
        },
        Action::ScrollPreviewUp => if a.layout.side == Side::Preview && index < len
            && a.list@[index as int].preview_scroll != 0 {
            &&& b.list@ == a.list@.update(index as int, ItemInfo {
                preview_scroll: (a.list@[index as int].preview_scroll - 1) as usize,
                ..a.list@[index as int]
            })
            &&& b == (State { list: b.list, ..a })
            &&& e == Effect::Redraw
        } else {
            unchanged && e == Effect::Nothing
        },
        Action::EnterInsert => unchanged && e == if visual { Effect::Nothing } else { Effect::Prompt(PromptKind::NewFile) },
        Action::EnterInsertDir => unchanged && e == if visual { Effect::Nothing } else { Effect::Prompt(PromptKind::NewDir) },
        Action::Rename => unchanged && e == if !visual && index < len { Effect::Prompt(PromptKind::Rename) } else { Effect::Nothing },
        Action::EnterSearch => unchanged && e == if visual { Effect::Nothing } else { Effect::Prompt(PromptKind::Search) },
        Action::EnterCommandLine => unchanged && e == if visual { Effect::Nothing } else { Effect::Prompt(PromptKind::CommandLine) },
        Action::ZoxideJump => unchanged && e == if visual { Effect::Nothing } else { Effect::Prompt(PromptKind::Zoxide) },
        Action::EnterRegister => unchanged && e == Effect::Nothing,
        Action::Quit => unchanged && e == if visual { Effect::Nothing } else { Effect::Quit(a.match_vim_exit_behavior) },
        Action::QuitWithoutSave => unchanged && e == if visual { Effect::Nothing } else { Effect::Quit(!a.match_vim_exit_behavior) },
    }
}

impl State {
    /// Whether the cursor is on an item and a row of the list.
    pub fn cursor_is_ready(&self) -> (b: bool)
        ensures
            b == cursor_ready(*self),
    {
        let l = &self.layout;
        let len = self.list.len();
        l.terminal_row >= 4 && len <= 65535 && l.nums.index < len && l.y >= BEGINNING_ROW && l.y < l.terminal_row
            && l.nums.index == l.nums.skip as usize + (l.y - BEGINNING_ROW) as usize
    }

    /// The items an action applies to.
    pub fn targets(&self) -> (r: Option<Vec<ItemBuffer>>)
        ensures
            match target_views(*self) {
                Some(v) => r matches Some(t) && buffer_views(t@) == v,
                None => r is None,
            },
    {
        match self.v_start {
            Some(_) => Some(self.selected_buffers()),
            None => {
                let i = self.layout.nums.index;
                if i < self.list.len() {
                    let b = ItemBuffer::new(&self.list[i]);
                    let v = vec![b];
                    proof {
                        assert(buffer_views(v@) =~= seq![b@]);
                    }
                    Some(v)
                } else {
                    None
                }
            },
        }
    }

    /// At the top of the key loop: a cursor below the last item (the list got
    /// shorter) goes back to the top.
    pub fn keep_cursor_in_bounds(&mut self) -> (reset: bool)
        requires
            old(self).layout.y >= BEGINNING_ROW,
            old(self).layout.nums.skip + old(self).layout.y <= u16::MAX,
        ensures
            reset == (old(self).layout.nums.skip + old(self).layout.y - BEGINNING_ROW + 1 > old(self).list@.len()),
            reset ==> *final(self) == (State {
                layout: Layout { nums: Num { index: 0, skip: 0 }, y: BEGINNING_ROW, ..old(self).layout },
                ..*old(self)
            }),
            !reset ==> *final(self) == *old(self),
    {
        if self.is_out_of_bounds() {
            self.layout.nums.reset();
            self.layout.y = BEGINNING_ROW;
            true
        } else {
            false
        }
    }

    /// After a jump to `target` of the jump list: when the directory exists,
    /// the position moves to it (and it is entered: the result); otherwise it
    /// is dropped from the list.
    pub fn after_jump(&mut self, backward: bool, exists: bool) -> (enter: bool)
        requires
            backward ==> old(self).jumplist.backward() is Some,
            !backward ==> old(self).jumplist.forward() is Some,
        ensures
            enter == exists,
            *final(self) == (State { jumplist: final(self).jumplist, ..*old(self) }),
            exists ==> final(self).jumplist.list@ == old(self).jumplist.list@,
            exists && backward ==> final(self).jumplist.pos == old(self).jumplist.pos + 1,
            exists && !backward ==> final(self).jumplist.pos == old(self).jumplist.pos - 1,
            !exists ==> final(self).jumplist.pos == old(self).jumplist.pos,
            !exists && backward ==> final(self).jumplist.list@ == old(self).jumplist.list@.remove(old(self).jumplist.pos + 1),
            !exists && !backward ==> final(self).jumplist.list@ == old(self).jumplist.list@.remove(old(self).jumplist.pos - 1),
    {
        let len = self.jumplist.list.len();
        assert(backward ==> self.jumplist.pos < len);
        if exists {
            if backward {
                self.jumplist.pos_backward();
            } else {
                self.jumplist.pos_forward();
            }
        } else if backward {
            self.jumplist.remove_backward();
        } else {
            self.jumplist.remove_forward();
        }
        exists
    }
}

impl State {
    /// Carry out `action` (typed after the register key `typed`, if any) on the
    /// state, and say what is left to do outside.
    pub fn apply(&mut self, action: Action, typed: Option<char>) -> (e: Effect)
        requires
            old(self).registers.wf(),
        ensures
            spec_apply(*old(self), action, typed, *final(self), e),
    {
        match action {
            Action::MoveDown | Action::MoveUp | Action::HalfPageDown | Action::HalfPageUp | Action::GoToTop | Action::GoToBottom => self.apply_moves(action, typed),
            Action::Open | Action::OpenNewWindow | Action::GoToParent | Action::JumpForward | Action::JumpBackward | Action::Unpack => self.apply_opens(action, typed),
            Action::Delete | Action::Yank | Action::Put | Action::Undo | Action::Redo => self.apply_items(action, typed),
            Action::ToggleSort | Action::ToggleHidden | Action::TogglePreview | Action::ToggleSplit | Action::ToggleVisual | Action::ResetSelection => self.apply_toggles(action, typed),
            Action::SearchNext | Action::SearchPrev | Action::ScrollPreviewDown | Action::ScrollPreviewUp => self.apply_finds(action, typed),
            Action::EnterInsert | Action::EnterInsertDir | Action::Rename | Action::EnterSearch | Action::EnterCommandLine | Action::ZoxideJump | Action::EnterRegister | Action::Quit | Action::QuitWithoutSave => self.apply_prompts(action, typed),
        }
    }

    #[verifier::spinoff_prover]
    #[verifier::rlimit(30)]
    fn apply_moves(&mut self, action: Action, typed: Option<char>) -> (e: Effect)
        requires
            old(self).registers.wf(),
            action == Action::MoveDown || action == Action::MoveUp || action == Action::HalfPageDown || action == Action::HalfPageUp || action == Action::GoToTop || action == Action::GoToBottom,
        ensures
            spec_apply(*old(self), action, typed, *final(self), e),
    {
        let len = self.list.len();
        match action {
            Action::MoveDown => {
                if self.cursor_is_ready() && self.step_down() {
                    Effect::Redraw
                } else {
                    Effect::Nothing
                }
            },
            Action::MoveUp => {
                if self.cursor_is_ready() && self.step_up() {
                    Effect::Redraw
                } else {
                    Effect::Nothing
                }
            },
            Action::HalfPageDown => {
                if self.cursor_is_ready() {
                    self.half_page_down();
                    Effect::Redraw
                } else {
                    Effect::Nothing
                }
            },
            Action::HalfPageUp => {
                if self.cursor_is_ready() {
                    self.half_page_up();
                    Effect::Redraw
                } else {
                    Effect::Nothing
                }
            },
            Action::GoToTop => {
                match self.v_start {
                    Some(s) => self.select_from_top(s),
                    None => {},
                }
                self.layout.nums = Num { index: 0, skip: 0 };
                self.layout.y = BEGINNING_ROW;
                Effect::Redraw
            },
            Action::GoToBottom => {
                match self.v_start {
                    Some(s) => self.select_to_bottom(s),
                    None => {},
                }
                if len <= 65535 - 3 && self.layout.terminal_row >= 4 {
                    match go_to_bottom(self.layout.nums, self.layout.terminal_row, len) {
                        Some((n, y1)) => {
                            self.layout.nums = n;
                            self.layout.y = y1;
                        },
                        None => {},
                    }
                }
                Effect::Redraw
            },
            _ => {
                assert(false);
                Effect::Nothing
            },
        }
    }

    #[verifier::spinoff_prover]
    #[verifier::rlimit(30)]
    fn apply_opens(&mut self, action: Action, typed: Option<char>) -> (e: Effect)
        requires
            old(self).registers.wf(),
            action == Action::Open || action == Action::OpenNewWindow || action == Action::GoToParent || action == Action::JumpForward || action == Action::JumpBackward || action == Action::Unpack,
        ensures
            spec_apply(*old(self), action, typed, *final(self), e),
    {
        let visual = self.v_start.is_some();
        let index = self.layout.nums.index;
        let len = self.list.len();
        match action {
            Action::Open => {
                if visual {
                    Effect::Nothing
                } else if index >= len {
                    Effect::Fail(FxError::GetItem)
                } else if self.list[index].file_type == FileType::Directory {
                    Effect::EnterDir(self.list[index].file_path.clone(), Move::Down)
                } else {
                    match &self.list[index].symlink_dir_path {
                        Some(d) => Effect::EnterDir(d.clone(), Move::Down),
                        None => Effect::OpenFile(index),
                    }
                }
            },
            Action::OpenNewWindow => {
                if visual {
                    Effect::Nothing
                } else if index < len {
                    Effect::OpenInNewWindow(index)
                } else {
                    Effect::Fail(FxError::GetItem)
                }
            },
            Action::GoToParent => if visual { Effect::Nothing } else { Effect::GoParent },
            Action::JumpForward => {
                if self.jumplist.list.len() == 0 {
                    Effect::Nothing
                } else {
                    match self.jumplist.get_forward() {
                        Some(p) => Effect::Jump(p, false),
                        None => Effect::Nothing,
                    }
                }
            },
            Action::JumpBackward => {
                if self.jumplist.list.len() == 0 {
                    Effect::Nothing
                } else {
                    match self.jumplist.get_backward() {
                        Some(p) => Effect::Jump(p, true),
                        None => Effect::Nothing,
                    }
                }
            },
            Action::Unpack => if !visual && len < usize::MAX { Effect::Unpack } else { Effect::Nothing },
            _ => {
                assert(false);
                Effect::Nothing
            },
        }
    }

    #[verifier::spinoff_prover]
    #[verifier::rlimit(30)]
    fn apply_items(&mut self, action: Action, typed: Option<char>) -> (e: Effect)
        requires
            old(self).registers.wf(),
            action == Action::Delete || action == Action::Yank || action == Action::Put || action == Action::Undo || action == Action::Redo,
        ensures
            spec_apply(*old(self), action, typed, *final(self), e),
    {
        let visual = self.v_start.is_some();
        match action {
            Action::Delete => {
                if self.is_ro {
                    Effect::Warn(String::from_str("Cannot delete item in this directory."))
                } else {
                    match choose_register(typed) {
                        None => Effect::Nothing,
                        Some((r, ap)) => match self.targets() {
                            Some(t) => Effect::Delete(t, r, ap),
                            None => Effect::Fail(FxError::GetItem),
                        },
                    }
                }
            },
            Action::Yank => {
                match choose_register(typed) {
                    None => Effect::Nothing,
                    Some((r, ap)) => match self.targets() {
                        Some(t) => {
                            let n = self.registers.yank_item(&t, r, ap);
                            self.reset_selection();
                            Effect::Yanked(n)
                        },
                        None => Effect::Fail(FxError::GetItem),
                    },
                }
            },
            Action::Put => {
                if visual {
                    Effect::Nothing
                } else if self.is_ro {
                    Effect::Warn(String::from_str("Cannot put into this directory."))
                } else {
                    let c = match typed {
                        Some(c) => c,
                        None => '"',
                    };
                    match self.registers.check_reg(&KeyCode::Char(c)) {
                        Some(items) => if items.len() > 0 {
                            Effect::Put(items)
                        } else {
                            Effect::Nothing
                        },
                        None => Effect::Nothing,
                    }
                }
            },
            Action::Undo => {
                if visual {
                    Effect::Nothing
                } else {
                    match self.operations.undo_target() {
                        Some(i) => Effect::Undo(i),
                        None => Effect::Info(String::from_str("No operations left.")),
                    }
                }
            },
            Action::Redo => {
                if visual {
                    Effect::Nothing
                } else {
                    match self.operations.redo_target() {
                        Some(i) => Effect::Redo(i),
                        None => Effect::Info(String::from_str("No operations left.")),
                    }
                }
            },
            _ => {
                assert(false);
                Effect::Nothing
            },
        }
    }

    #[verifier::spinoff_prover]
    #[verifier::rlimit(30)]
    fn apply_toggles(&mut self, action: Action, typed: Option<char>) -> (e: Effect)
        requires
            old(self).registers.wf(),
            action == Action::ToggleSort || action == Action::ToggleHidden || action == Action::TogglePreview || action == Action::ToggleSplit || action == Action::ToggleVisual || action == Action::ResetSelection,
        ensures
            spec_apply(*old(self), action, typed, *final(self), e),
    {
        let visual = self.v_start.is_some();
        let index = self.layout.nums.index;
        let len = self.list.len();
        match action {
            Action::ToggleSort => {
                if visual {
                    Effect::Nothing
                } else {
                    self.layout.sort_by = match self.layout.sort_by {
                        SortKey::Name => SortKey::Time,
                        SortKey::Time => SortKey::Name,
                    };
                    self.change_order();
                    Effect::Redraw
                }
            },
            Action::ToggleHidden => {
                if visual {
                    Effect::Nothing
                } else {
                    self.layout.show_hidden = !self.layout.show_hidden;
                    self.layout.nums = Num { index: 0, skip: 0 };
                    self.layout.y = BEGINNING_ROW;
                    Effect::Relist
                }
            },
            Action::TogglePreview => {
                if self.layout.is_preview() || self.layout.is_reg() {
                    self.layout.reset_side();
                } else {
                    self.layout.show_preview();
                }
                Effect::Relayout
            },
            Action::ToggleSplit => {
                self.layout.split = match self.layout.split {
                    Split::Vertical => Split::Horizontal,
                    Split::Horizontal => Split::Vertical,
                };
                Effect::Relayout
            },
            Action::ToggleVisual => {
                if visual {
                    self.reset_selection();
                    Effect::Redraw
                } else if len == 0 {
                    Effect::Nothing
                } else if index >= len {
                    Effect::Fail(FxError::GetItem)
                } else {
                    self.list[index].selected = true;
                    self.v_start = Some(index);
                    proof {
                        assert(self.list@ =~= old(self).list@.update(
                            index as int,
                            ItemInfo { selected: true, ..old(self).list@[index as int] },
                        ));
                    }
                    Effect::Redraw
                }
            },
            Action::ResetSelection => {
                self.reset_selection();
                self.keyword = None;
                Effect::Redraw
            },
            _ => {
                assert(false);
                Effect::Nothing
            },
        }
    }

    #[verifier::spinoff_prover]
    #[verifier::rlimit(30)]
    fn apply_finds(&mut self, action: Action, typed: Option<char>) -> (e: Effect)
        requires
            old(self).registers.wf(),
            action == Action::SearchNext || action == Action::SearchPrev || action == Action::ScrollPreviewDown || action == Action::ScrollPreviewUp,
        ensures
            spec_apply(*old(self), action, typed, *final(self), e),
    {
        let visual = self.v_start.is_some();
        let index = self.layout.nums.index;
        let len = self.list.len();
        match action {
            Action::SearchNext => {
                if visual || index == usize::MAX {
                    Effect::Nothing
                } else if self.search_next() {
                    Effect::Redraw
                } else {
                    Effect::Nothing
                }
            },
            Action::SearchPrev => {
                if visual {
                    Effect::Nothing
                } else if self.search_prev() {
                    Effect::Redraw
                } else {
                    Effect::Nothing
                }
            },
            Action::ScrollPreviewDown => {
                if self.layout.is_preview() && index < len && self.list[index].preview_scroll < usize::MAX {
                    self.scroll_down_preview();
                    Effect::Redraw
                } else {
                    Effect::Nothing
                }
            },
            Action::ScrollPreviewUp => {
                if self.layout.is_preview() && self.scroll_up_preview() {
                    Effect::Redraw
                } else {
                    Effect::Nothing
                }
            },
            _ => {
                assert(false);
                Effect::Nothing
            },
        }
    }

    #[verifier::spinoff_prover]
    #[verifier::rlimit(30)]
    fn apply_prompts(&mut self, action: Action, typed: Option<char>) -> (e: Effect)
        requires
            old(self).registers.wf(),
            action == Action::EnterInsert || action == Action::EnterInsertDir || action == Action::Rename || action == Action::EnterSearch || action == Action::EnterCommandLine || action == Action::ZoxideJump || action == Action::EnterRegister || action == Action::Quit || action == Action::QuitWithoutSave,
        ensures
            spec_apply(*old(self), action, typed, *final(self), e),
    {
        let visual = self.v_start.is_some();
        let index = self.layout.nums.index;
        let len = self.list.len();
        match action {
            Action::EnterInsert => if visual { Effect::Nothing } else { Effect::Prompt(PromptKind::NewFile) },
            Action::EnterInsertDir => if visual { Effect::Nothing } else { Effect::Prompt(PromptKind::NewDir) },
            Action::Rename => if !visual && index < len { Effect::Prompt(PromptKind::Rename) } else { Effect::Nothing },
            Action::EnterSearch => if visual { Effect::Nothing } else { Effect::Prompt(PromptKind::Search) },
            Action::EnterCommandLine => if visual { Effect::Nothing } else { Effect::Prompt(PromptKind::CommandLine) },
            Action::ZoxideJump => if visual { Effect::Nothing } else { Effect::Prompt(PromptKind::Zoxide) },
            Action::EnterRegister => Effect::Nothing,
            Action::Quit => if visual { Effect::Nothing } else { Effect::Quit(self.match_vim_exit_behavior) },
            Action::QuitWithoutSave => if visual { Effect::Nothing } else { Effect::Quit(!self.match_vim_exit_behavior) },
            _ => {
                assert(false);
                Effect::Nothing
            },
        }
    }
}

/// The register and append flag that a typed register key asks for.
pub fn choose_register(typed: Option<char>) -> (r: Option<(Option<char>, bool)>)
    ensures
        r == register_choice(typed),
{
    match typed {
        None => Some((None, false)),
        Some(c) => match register_key(c) {
            Some((reg, a)) => Some((Some(reg), a)),
            None => None,
        },
    }
}

/// The cursor fitted to a list of `len` items (see `fit_to_length`), when
/// the row allows it; left as it is otherwise.
pub open spec fn fitted(nums: Num, y: u16, len: nat) -> (Num, u16) {
    if len > 0 && nums.index > len - 1 && y < nums.index - (len - 1) {
        (nums, y)
    } else if len == 0 {
        (Num { index: 0, skip: 0 }, BEGINNING_ROW)
    } else if nums.index > len - 1 {
        (Num { index: (len - 1) as usize, skip: nums.skip }, (y - (nums.index - (len - 1))) as u16)
    } else {
        (nums, y)
    }
}

/// Where the cursor goes once the directory was read again: fitted to the
/// new length, and back to the top when it is still not on an item and a row.
pub open spec fn cursor_after_reload(st: State) -> (Num, u16) {
    let len = st.list@.len();
    let (n, y) = fitted(st.layout.nums, st.layout.y, len);
    if len > 0 && !(st.layout.terminal_row >= 4 && len <= u16::MAX && cursor_fits(n, y, st.layout.terminal_row, len)) {
        (Num { index: 0, skip: 0 }, BEGINNING_ROW)
    } else {
        (n, y)
    }
}

/// Where the cursor goes after a deletion, once the directory was read again
/// (see `after_delete` and `after_visual_delete`).
pub open spec fn cursor_after_delete(nums: Num, y: u16, len: nat, visual: bool) -> (Num, u16) {
    if visual {
        if y >= BEGINNING_ROW && nums.skip + y <= u16::MAX && len <= u16::MAX {
            if len == 0 {
                (Num { index: 0, skip: 0 }, BEGINNING_ROW)
            } else if nums.skip + y - BEGINNING_ROW + 1 > len {
                if nums.skip >= len {
                    (Num { index: (len - 1) as usize, skip: (len - 1) as u16 }, BEGINNING_ROW)
                } else {
                    (Num { index: (len - 1) as usize, skip: nums.skip }, (len - nums.skip + BEGINNING_ROW - 1) as u16)
                }
            } else {
                (nums, y)
            }
        } else {
            (nums, y)
        }
    } else if len > 0 && nums.index == len && y < 1 {
        (nums, y)
    } else if len == 0 {
        (nums, BEGINNING_ROW)
    } else if nums.index == len {
        (Num { index: (nums.index - 1) as usize, skip: nums.skip }, (y - 1) as u16)
    } else {
        (nums, y)
    }
}

impl State {
    /// Put the cursor back on the list after it was read again.
    #[verifier::rlimit(30)]
    pub fn settle_after_reload(&mut self)
        ensures
            *final(self) == (State {
                layout: Layout {
                    nums: cursor_after_reload(*old(self)).0,
                    y: cursor_after_reload(*old(self)).1,
                    ..old(self).layout
                },
                ..*old(self)
            }),
    {
        let len = self.list.len();
        let nums = self.layout.nums;
        let y = self.layout.y;
        let ghost f = fitted(nums, y, len as nat);
        if !(len > 0 && nums.index > len - 1) || y as usize >= nums.index - (len - 1) {
            let (n, y1) = crate::cursor::fit_to_length(nums, y, len);
            self.layout.nums = n;
            self.layout.y = y1;
        }
        assert((self.layout.nums, self.layout.y) == f);
        assert(*self == (State { layout: Layout { nums: f.0, y: f.1, ..old(self).layout }, ..*old(self) }));
        if len > 0 && !self.cursor_is_ready() {
            self.layout.nums = Num { index: 0, skip: 0 };
            self.layout.y = BEGINNING_ROW;
        }
    }

    /// Put the cursor back on the list after items were deleted (in visual
    /// mode or not) and the list was read again; in visual mode the selection
    /// ends.
    pub fn settle_after_delete(&mut self, visual: bool)
        ensures
            (final(self).layout.nums, final(self).layout.y)
                == cursor_after_delete(old(self).layout.nums, old(self).layout.y, old(self).list@.len(), visual),
            final(self).layout == (Layout { nums: final(self).layout.nums, y: final(self).layout.y, ..old(self).layout }),
            visual ==> selection_set(old(self).list@, final(self).list@, |i: int| false)
                && *final(self) == (State { list: final(self).list, layout: final(self).layout, v_start: None, ..*old(self) }),
            !visual ==> *final(self) == (State { layout: final(self).layout, ..*old(self) }),
    {
        let len = self.list.len();
        if visual {
            self.reset_selection();
            let nums = self.layout.nums;
            let y = self.layout.y;
            if y >= BEGINNING_ROW && nums.skip as u32 + y as u32 <= 65535 && len <= 65535 {
                let (n, y1) = crate::cursor::after_visual_delete(nums, y, len);
                self.layout.nums = n;
                self.layout.y = y1;
            }
        } else if !(len > 0 && self.layout.nums.index == len && self.layout.y < 1) {
            let (n, y1) = crate::cursor::after_delete(self.layout.nums, self.layout.y, len);
            self.layout.nums = n;
            self.layout.y = y1;
        }
    }
}

/// Where the cursor goes in a directory just entered and listed, by the plan
/// that `State::chdir` made: the remembered row, the row of the named entry
/// (see `State::place_cursor_on`), or the top; and back to the top when it is
/// then not on an item and a row.
pub open spec fn cursor_after_chdir(st: State, plan: CursorPlan) -> (Num, u16) {
    let (n, y) = planned_cursor(st, plan);
    if st.layout.terminal_row >= 4 && st.list@.len() <= u16::MAX && cursor_fits(n, y, st.layout.terminal_row, st.list@.len()) {
        (n, y)
    } else {
        (Num { index: 0, skip: 0 }, BEGINNING_ROW)
    }
}

/// The cursor that a plan of `State::chdir` asks for, before it is checked.
pub open spec fn planned_cursor(st: State, plan: CursorPlan) -> (Num, u16) {
    match plan {
        CursorPlan::Restore(y) => (st.layout.nums, y),
        CursorPlan::Top => (st.layout.nums, BEGINNING_ROW),
        CursorPlan::OnName(None) => (Num { index: 0, skip: 0 }, BEGINNING_ROW),
        CursorPlan::OnName(Some(name)) => {
            let found = first_named(item_names(st.list@), name@);
            let pos = if found < st.list@.len() { found } else { 0 };
            if pos < 3 {
                (Num { index: pos as usize, skip: 0 }, (pos + BEGINNING_ROW) as u16)
            } else {
                (Num { index: pos as usize, skip: #[verifier::truncate] ((pos - 3) as u16) }, (BEGINNING_ROW + 3) as u16)
            }
        },
    }
}

impl State {
    /// The cursor on the entry named `name` (see `place_cursor_on`).
    fn place_on_name(&mut self, name: Option<String>)
        ensures
            *final(self) == (State {
                layout: Layout {
                    nums: planned_cursor(*old(self), CursorPlan::OnName(name)).0,
                    y: planned_cursor(*old(self), CursorPlan::OnName(name)).1,
                    ..old(self).layout
                },
                ..*old(self)
            }),
    {
        let y = self.place_cursor_on(&name);
        self.layout.y = y;
    }

    /// Place the cursor in the directory just entered and listed, by the plan
    /// that `chdir` made.
    #[verifier::rlimit(30)]
    pub fn settle_after_chdir(&mut self, plan: CursorPlan)
        ensures
            *final(self) == (State {
                layout: Layout {
                    nums: cursor_after_chdir(*old(self), plan).0,
                    y: cursor_after_chdir(*old(self), plan).1,
                    ..old(self).layout
                },
                ..*old(self)
            }),
    {
        let ghost p = planned_cursor(*self, plan);
        match plan {
            CursorPlan::Restore(y) => {
                self.layout.y = y;
            },
            CursorPlan::OnName(name) => {
                self.place_on_name(name);
            },
            CursorPlan::Top => {
                self.layout.y = BEGINNING_ROW;
            },
        }
        assert(*self == (State { layout: Layout { nums: p.0, y: p.1, ..old(self).layout }, ..*old(self) }));
        if !self.cursor_is_ready() {
            self.layout.nums = Num { index: 0, skip: 0 };
            self.layout.y = BEGINNING_ROW;
        }
    }
}

/// Switching the split twice gives back the state it started from.
pub proof fn law_split_toggle_twice(a: State, b: State, c: State, t1: Option<char>, t2: Option<char>, e1: Effect, e2: Effect)
    requires
        spec_apply(a, Action::ToggleSplit, t1, b, e1),
        spec_apply(b, Action::ToggleSplit, t2, c, e2),
    ensures
        c == a,
{
    assert(c.layout == a.layout);
}

/// A yank, or a delete where deleting is allowed, asked for with a register
/// key that names no register, changes nothing and leaves nothing to do.
pub proof fn law_unknown_register_does_nothing(a: State, b: State, c: char, e: Effect, action: Action)
    requires
        spec_register_key(c) is None,
        action == Action::Yank || action == Action::Delete && !a.is_ro,
        spec_apply(a, action, Some(c), b, e),
    ensures
        b == a,
        e == Effect::Nothing,
{
}

/// Opening (outside visual mode) the item under the cursor enters the
/// directory behind it: a directory's own path, or the directory a symlink
/// leads to; only an item with no directory behind it is opened as a file.
pub proof fn law_open_enters_directories(a: State, t: Option<char>, b: State, e: Effect)
    requires
        a.v_start is None,
        a.layout.nums.index < a.list@.len(),
        spec_apply(a, Action::Open, t, b, e),
    ensures
        b == a,
        ({
            let item = a.list@[a.layout.nums.index as int];
            &&& item.file_type == FileType::Directory ==> (e matches Effect::EnterDir(p, m) && p@ == item.file_path@ && m == Move::Down)
            &&& item.file_type != FileType::Directory ==> (item.symlink_dir_path matches Some(d)
                ==> (e matches Effect::EnterDir(p, m) && p@ == d@ && m == Move::Down))
            &&& e matches Effect::OpenFile(i) ==> i == a.layout.nums.index && item.file_type != FileType::Directory
                && item.symlink_dir_path is None
        }),
{
}

} // verus!
