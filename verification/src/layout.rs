//! Screen layout: where item names, times and the side panel (preview or
//! registers) go, depending on the terminal size.
use vstd::prelude::*;
use crate::config::{Config, ConfigColor, default_colors};
use crate::errors::FxError;
use crate::session::{Session, SortKey};

verus! {

/// The row of the first item.
pub const BEGINNING_ROW: u16 = 3;
pub const MAX_SIZE_TO_PREVIEW: u64 = 1_000_000_000;
pub const PROPER_WIDTH: u16 = 28;
pub const TIME_WIDTH: u16 = 16;
pub const EXTRA_SPACES: u16 = 3;

/// Cursor position in the item list: the index of the item under the cursor,
/// and how many items are scrolled off the top.
#[derive(Debug, Default, Clone, Copy, PartialEq, Eq, Structural)]
pub struct Num {
    pub index: usize,
    pub skip: u16,
}

impl Num {
    pub fn new() -> (n: Self)
        ensures
            n.index == 0 && n.skip == 0,
    {
        Num { index: 0, skip: 0 }
    }

    /// Back to the top of the list.
    pub fn reset(&mut self)
        ensures
            final(self).index == 0 && final(self).skip == 0,
    {
        self.index = 0;
        self.skip = 0;
    }
}

#[derive(Debug)]
pub struct Layout {
    pub nums: Num,
    pub y: u16,
    pub terminal_row: u16,
    pub terminal_column: u16,
    pub name_max_len: usize,
    pub time_start_pos: u16,
    pub colors: ConfigColor,
    pub sort_by: SortKey,
    pub show_hidden: bool,
    pub side: Side,
    pub split: Split,
    pub preview_start: (u16, u16),
    pub preview_space: (u16, u16),
    pub has_chafa: bool,
    pub has_bat: bool,
    pub is_kitty: bool,
}

#[derive(Debug, Clone, Copy, PartialEq, Eq, Structural, PartialOrd, Ord)]
pub enum PreviewType {
    NotReadable,
    TooBigSize,
    Directory,
    Image,
    Text,
    Binary,
}

/// What the side panel shows.
#[derive(Debug, Clone, Copy, PartialEq, Eq, Structural, Default)]
pub enum Side {
    #[default]
    Preview,
    Reg,
    Empty,
}

/// Whether the side panel is beside (vertical split) or below (horizontal split) the list.
#[derive(Debug, Clone, Copy, PartialEq, Eq, Structural, Default)]
pub enum Split {
    #[default]
    Vertical,
    Horizontal,
}

/// Where the time column starts and how long a name may be, for a terminal of
/// `column` columns.
pub open spec fn spec_make_layout(column: int) -> (int, int) {
    if column < PROPER_WIDTH {
        (column, column - 2)
    } else {
        (column - TIME_WIDTH, column - TIME_WIDTH - EXTRA_SPACES)
    }
}

/// Make app's layout according to terminal width and app's config.
pub fn make_layout(column: u16) -> (r: (u16, usize))
    requires
        column >= 2,
    ensures
        r.0 as int == spec_make_layout(column as int).0,
        r.1 as int == spec_make_layout(column as int).1,
{
    let mut time_start: u16;
    let mut name_max: usize;
    if column < PROPER_WIDTH {
        time_start = column;
        name_max = (column - 2) as usize;
        (time_start, name_max)
    } else {
        time_start = column - TIME_WIDTH;
        name_max = (time_start - EXTRA_SPACES) as usize;
        let required = time_start + TIME_WIDTH - 1;
        if required > column {
            let diff = required - column;
            name_max = name_max - diff as usize;
            time_start = time_start - diff;
        }
        (time_start, name_max)
    }
}

impl Layout {
    /// The layout of a terminal of `column` x `row` cells, with the session's
    /// sort key, hidden-item and side-panel settings and the configured colors.
    /// Refused when the terminal is smaller than 4 x 4.
    pub fn new(
        column: u16,
        row: u16,
        session: &Session,
        config: Config,
        has_bat: bool,
        has_chafa: bool,
        is_kitty: bool,
    ) -> (r: Result<Layout, FxError>)
        ensures
            (column < 4 || row < 4) <==> r is Err,
            r matches Err(e) ==> e == FxError::TooSmallWindowSize,
            r matches Ok(l) ==> {
                &&& l.nums == Num { index: 0, skip: 0 }
                &&& l.y == BEGINNING_ROW
                &&& l.terminal_row == row
                &&& l.terminal_column == column
                &&& l.time_start_pos as int == spec_make_layout(column as int).0
                &&& l.name_max_len as int == spec_make_layout(column as int).1
                &&& l.colors == match config.color {
                    Some(c) => c,
                    None => default_colors(),
                }
                &&& l.sort_by == session.sort_by
                &&& l.show_hidden == session.show_hidden
                &&& l.side == if session.preview == Some(true) { Side::Preview } else { Side::Empty }
                &&& l.split == match session.split {
                    Some(s) => s,
                    None => Split::Vertical,
                }
                &&& l.preview_start == (0u16, 0u16)
                &&& l.preview_space == (0u16, 0u16)
                &&& l.has_bat == has_bat
                &&& l.has_chafa == has_chafa
                &&& l.is_kitty == is_kitty
            },
    {
        if column < 4 {
            return Err(FxError::TooSmallWindowSize);
        }
        if row < 4 {
            return Err(FxError::TooSmallWindowSize);
        }
        let (time_start, name_max) = make_layout(column);
        let split = match session.split {
            Some(s) => s,
            None => Split::Vertical,
        };
        let colors = ConfigColor::or_default(config.color);
        let side = match session.preview {
            Some(true) => Side::Preview,
            _ => Side::Empty,
        };
        Ok(Layout {
            nums: Num::new(),
            y: BEGINNING_ROW,
            terminal_row: row,
            terminal_column: column,
            name_max_len: name_max,
            time_start_pos: time_start,
            colors,
            sort_by: session.sort_by,
            show_hidden: session.show_hidden,
            side,
            split,
            preview_start: (0, 0),
            preview_space: (0, 0),
            has_chafa,
            has_bat,
            is_kitty,
        })
    }

    pub fn is_preview(&self) -> (b: bool)
        ensures
            b == (self.side == Side::Preview),
    {
        self.side == Side::Preview
    }

    pub fn is_reg(&self) -> (b: bool)
        ensures
            b == (self.side == Side::Reg),
    {
        self.side == Side::Reg
    }

    pub fn show_preview(&mut self)
        ensures
            final(self).side == Side::Preview,
            *final(self) == (Layout { side: Side::Preview, ..*old(self) }),
    {
        self.side = Side::Preview;
    }

    pub fn show_reg(&mut self)
        ensures
            *final(self) == (Layout { side: Side::Reg, ..*old(self) }),
    {
        self.side = Side::Reg;
    }

    pub fn reset_side(&mut self)
        ensures
            *final(self) == (Layout { side: Side::Empty, ..*old(self) }),
    {
        self.side = Side::Empty;
    }

    /// Clear the preview space: the cells (1-based column and row) from which
    /// each line of the side panel is cleared to its end, one for each of the
    /// `terminal_row + 1` lines, and the cell the cursor goes to afterwards.
    pub fn clear_preview(&self, preview_start_point: u16) -> (r: (Vec<(u16, u16)>, (u16, u16)))
        requires
            self.split == Split::Vertical ==> BEGINNING_ROW + self.terminal_row <= u16::MAX,
            self.split == Split::Horizontal ==> preview_start_point + self.terminal_row <= u16::MAX,
        ensures
            r.0@.len() == self.terminal_row + 1,
            forall|i: int| 0 <= i <= self.terminal_row ==> (#[trigger] r.0@[i]) == match self.split {
                Split::Vertical => (preview_start_point, (BEGINNING_ROW + i) as u16),
                Split::Horizontal => (1u16, (preview_start_point + i) as u16),
            },
            r.1 == match self.split {
                Split::Vertical => (self.preview_start.0, BEGINNING_ROW),
                Split::Horizontal => (1u16, preview_start_point),
            },
    {
        let mut cells: Vec<(u16, u16)> = Vec::new();
        let mut i: u32 = 0;
        while i <= self.terminal_row as u32
            invariant
                i <= self.terminal_row + 1,
                cells@.len() == i,
                self.split == Split::Vertical ==> BEGINNING_ROW + self.terminal_row <= u16::MAX,
                self.split == Split::Horizontal ==> preview_start_point + self.terminal_row <= u16::MAX,
                forall|j: int| 0 <= j < i ==> (#[trigger] cells@[j]) == match self.split {
                    Split::Vertical => (preview_start_point, (BEGINNING_ROW + j) as u16),
                    Split::Horizontal => (1u16, (preview_start_point + j) as u16),
                },
            decreases self.terminal_row + 1 - i,
        {
            let k = i as u16;
            let cell = match self.split {
                Split::Vertical => (preview_start_point, BEGINNING_ROW + k),
                Split::Horizontal => (1, preview_start_point + k),
            };
            cells.push(cell);
            i = i + 1;
        }
        let last = match self.split {
            Split::Vertical => (self.preview_start.0, BEGINNING_ROW),
            Split::Horizontal => (1, preview_start_point),
        };
        (cells, last)
    }

    /// Columns and rows left for the item list: half the terminal when the side
    /// panel is shown, otherwise the whole terminal (`terminal` is its current size).
    pub fn update_column_and_row(&self, terminal: (u16, u16)) -> (r: (u16, u16))
        ensures
            r == if self.side == Side::Preview || self.side == Side::Reg {
                match self.split {
                    Split::Vertical => ((self.terminal_column / 2) as u16, self.terminal_row),
                    Split::Horizontal => (self.terminal_column, (self.terminal_row / 2) as u16),
                }
            } else {
                terminal
            },
    {
        if self.is_preview() || self.is_reg() {
            match self.split {
                Split::Vertical => (self.terminal_column / 2, self.terminal_row),
                Split::Horizontal => (self.terminal_column, self.terminal_row / 2),
            }
        } else {
            terminal
        }
    }
}

} // verus!
