//! Terminal positions and colors: where the cursor is sent for a 1-based
//! column and row, and which color a piece of text takes.
use vstd::prelude::*;
use crate::config::Colorname;

verus! {

/// A color for the text (foreground) or behind it (background).
#[derive(Debug, Clone, Copy)]
pub enum TermColor<'a> {
    ForeGround(&'a Colorname),
    BackGround(&'a Colorname),
}

/// The 0-based cell that the 1-based column `x` and row `y` name, which the
/// terminal's cursor-move command takes.
pub fn move_to(x: u16, y: u16) -> (r: (u16, u16))
    requires
        x >= 1,
        y >= 1,
    ensures
        r == ((x - 1) as u16, (y - 1) as u16),
{
    (x - 1, y - 1)
}

/// The cell of the info bar: column 2 of row 2.
pub fn to_info_bar() -> (r: (u16, u16))
    ensures
        r == (1u16, 1u16),
{
    move_to(2, 2)
}

} // verus!
