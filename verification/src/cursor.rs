//! Moving the cursor through the listing: the item index, how many items are
//! scrolled off the top, and the screen row of the cursor move together.
use vstd::prelude::*;
use crate::layout::{Num, BEGINNING_ROW};

verus! {

/// How close to the top or bottom of the screen the cursor gets before the
/// listing scrolls.
pub const SCROLL_POINT: u16 = 3;

/// The cursor is on an item of the list, on a row of the list area (the rows
/// from `BEGINNING_ROW` to the one above the status line `row`), and the item
/// under it is `skip` items below the top one plus its distance from the first row.
pub open spec fn cursor_fits(nums: Num, y: u16, row: u16, len: nat) -> bool {
    &&& nums.index < len
    &&& BEGINNING_ROW <= y < row
    &&& nums.index == nums.skip + y - BEGINNING_ROW
}

/// One item down: nothing at the last item; the listing scrolls when the
/// cursor is near the bottom and the list is longer than the screen;
/// otherwise the cursor moves a row down.
pub open spec fn spec_move_down(nums: Num, y: u16, row: u16, len: nat) -> Option<(Num, u16)> {
    if len == 0 || nums.index == len - 1 {
        None
    } else if y >= row - 1 - SCROLL_POINT && len > row - BEGINNING_ROW - 1 {
        Some((Num { index: (nums.index + 1) as usize, skip: (nums.skip + 1) as u16 }, y))
    } else {
        Some((Num { index: (nums.index + 1) as usize, skip: nums.skip }, (y + 1) as u16))
    }
}

/// One item up: nothing at the first item; the listing scrolls when the cursor
/// is near the top and items are scrolled off; otherwise the cursor moves a row up.
pub open spec fn spec_move_up(nums: Num, y: u16) -> Option<(Num, u16)> {
    if nums.index == 0 {
        None
    } else if y <= BEGINNING_ROW + SCROLL_POINT && nums.skip != 0 {
        Some((Num { index: (nums.index - 1) as usize, skip: (nums.skip - 1) as u16 }, y))
    } else {
        Some((Num { index: (nums.index - 1) as usize, skip: nums.skip }, (y - 1) as u16))
    }
}

/// Go down one item (`j`).
pub fn move_down(nums: Num, y: u16, row: u16, len: usize) -> (r: Option<(Num, u16)>)
    requires
        row >= 4,
        nums.index < usize::MAX,
        nums.skip < u16::MAX,
        y < u16::MAX,
    ensures
        r == spec_move_down(nums, y, row, len as nat),
{
    if len == 0 || nums.index == len - 1 {
        None
    } else if y >= row - 1 - SCROLL_POINT && len > (row - BEGINNING_ROW) as usize - 1 {
        Some((Num { index: nums.index + 1, skip: nums.skip + 1 }, y))
    } else {
        Some((Num { index: nums.index + 1, skip: nums.skip }, y + 1))
    }
}

/// Go up one item (`k`).
pub fn move_up(nums: Num, y: u16) -> (r: Option<(Num, u16)>)
    requires
        y > 0,
    ensures
        r == spec_move_up(nums, y),
{
    if nums.index == 0 {
        None
    } else if y <= BEGINNING_ROW + SCROLL_POINT && nums.skip != 0 {
        Some((Num { index: nums.index - 1, skip: nums.skip - 1 }, y))
    } else {
        Some((Num { index: nums.index - 1, skip: nums.skip }, y - 1))
    }
}

/// The cursor on the first item (`gg`).
pub fn go_to_top() -> (r: (Num, u16))
    ensures
        r == (Num { index: 0, skip: 0 }, BEGINNING_ROW),
{
    (Num { index: 0, skip: 0 }, BEGINNING_ROW)
}

/// The cursor on the last item (`G`): on the last row, the listing scrolled so
/// that the last item is there, when the list is longer than the screen;
/// otherwise on the row of the last item. Nothing for an empty list.
pub fn go_to_bottom(nums: Num, row: u16, len: usize) -> (r: Option<(Num, u16)>)
    requires
        row >= 4,
        len <= u16::MAX - BEGINNING_ROW,
    ensures
        len == 0 ==> r is None,
        len > 0 && len > row - BEGINNING_ROW ==> r == Some((
            Num { index: (len - 1) as usize, skip: (len + BEGINNING_ROW - row) as u16 },
            (row - 1) as u16,
        )),
        len > 0 && len <= row - BEGINNING_ROW ==> r == Some((
            Num { index: (len - 1) as usize, skip: nums.skip },
            (len + BEGINNING_ROW - 1) as u16,
        )),
{
    if len == 0 {
        None
    } else if len > (row - BEGINNING_ROW) as usize {
        Some((Num { index: len - 1, skip: (len as u16) + BEGINNING_ROW - row }, row - 1))
    } else {
        Some((Num { index: len - 1, skip: nums.skip }, (len as u16) + BEGINNING_ROW - 1))
    }
}

/// `k` steps of `spec_move_down`, stopping at the last item.
pub open spec fn steps_down(nums: Num, y: u16, row: u16, len: nat, k: nat) -> (Num, u16)
    decreases k,
{
    if k == 0 {
        (nums, y)
    } else {
        match spec_move_down(nums, y, row, len) {
            Some((n, y1)) => steps_down(n, y1, row, len, (k - 1) as nat),
            None => (nums, y),
        }
    }
}

/// `k` steps of `spec_move_up`, stopping at the first item.
pub open spec fn steps_up(nums: Num, y: u16, k: nat) -> (Num, u16)
    decreases k,
{
    if k == 0 {
        (nums, y)
    } else {
        match spec_move_up(nums, y) {
            Some((n, y1)) => steps_up(n, y1, (k - 1) as nat),
            None => (nums, y),
        }
    }
}

/// Half the screen's rows, rounded up.
pub open spec fn half_rows(row: u16) -> nat {
    ((row as nat) + 1) / 2
}

/// Go down half a page (`Ctrl-d`): as many single steps down as half the rows.
pub fn half_page_down(nums: Num, y: u16, row: u16, len: usize) -> (r: (Num, u16))
    requires
        row >= 4,
        len <= u16::MAX,
        cursor_fits(nums, y, row, len as nat),
    ensures
        r == steps_down(nums, y, row, len as nat, half_rows(row)),
        cursor_fits(r.0, r.1, row, len as nat),
{
    let half: u16 = row / 2 + row % 2;
    let mut n = nums;
    let mut cy = y;
    let mut k: u16 = 0;
    while k < half
        invariant
            row >= 4,
            len <= u16::MAX,
            k <= half,
            half == half_rows(row),
            cursor_fits(n, cy, row, len as nat),
            steps_down(nums, y, row, len as nat, half_rows(row)) == steps_down(n, cy, row, len as nat, (half - k) as nat),
        decreases half - k,
    {
        proof {
            lemma_move_down_fits(n, cy, row, len as nat);
        }
        match move_down(n, cy, row, len) {
            Some((n1, y1)) => {
                n = n1;
                cy = y1;
            },
            None => {
                return (n, cy);
            },
        }
        k = k + 1;
    }
    (n, cy)
}

/// Go up half a page (`Ctrl-u`): as many single steps up as half the rows.
pub fn half_page_up(nums: Num, y: u16, row: u16, len: usize) -> (r: (Num, u16))
    requires
        row >= 4,
        len <= u16::MAX,
        cursor_fits(nums, y, row, len as nat),
    ensures
        r == steps_up(nums, y, half_rows(row)),
        cursor_fits(r.0, r.1, row, len as nat),
{
    let half: u16 = row / 2 + row % 2;
    let mut n = nums;
    let mut cy = y;
    let mut k: u16 = 0;
    while k < half
        invariant
            row >= 4,
            len <= u16::MAX,
            k <= half,
            half == half_rows(row),
            cursor_fits(n, cy, row, len as nat),
            steps_up(nums, y, half_rows(row)) == steps_up(n, cy, (half - k) as nat),
        decreases half - k,
    {
        proof {
            lemma_move_up_fits(n, cy, row, len as nat);
        }
        match move_up(n, cy) {
            Some((n1, y1)) => {
                n = n1;
                cy = y1;
            },
            None => {
                return (n, cy);
            },
        }
        k = k + 1;
    }
    (n, cy)
}

/// The cursor after the list shrank to `len` items (after a deletion, an
/// undo or a redo): at the top of an empty list; moved up to the last item
/// when it was past it; otherwise where it was.
pub fn fit_to_length(nums: Num, y: u16, len: usize) -> (r: (Num, u16))
    requires
        len > 0 && nums.index > len - 1 ==> y >= nums.index - (len - 1),
    ensures
        r == if len == 0 {
            (Num { index: 0, skip: 0 }, BEGINNING_ROW)
        } else if nums.index > len - 1 {
            (Num { index: (len - 1) as usize, skip: nums.skip }, (y - (nums.index - (len - 1))) as u16)
        } else {
            (nums, y)
        },
{
    if len == 0 {
        (Num { index: 0, skip: 0 }, BEGINNING_ROW)
    } else if nums.index > len - 1 {
        let d = nums.index - (len - 1);
        (Num { index: len - 1, skip: nums.skip }, y - d as u16)
    } else {
        (nums, y)
    }
}

/// The cursor after the item under it was deleted (`dd`): on the first row
/// when the list became empty; one item up when it was on the item past the
/// new end; otherwise where it was.
pub fn after_delete(nums: Num, y: u16, new_len: usize) -> (r: (Num, u16))
    requires
        new_len > 0 && nums.index == new_len ==> y >= 1,
    ensures
        r == if new_len == 0 {
            (nums, BEGINNING_ROW)
        } else if nums.index == new_len {
            (Num { index: (nums.index - 1) as usize, skip: nums.skip }, (y - 1) as u16)
        } else {
            (nums, y)
        },
{
    if new_len == 0 {
        (nums, BEGINNING_ROW)
    } else if nums.index == new_len {
        (Num { index: nums.index - 1, skip: nums.skip }, y - 1)
    } else {
        (nums, y)
    }
}

/// The cursor after the selected items were deleted in visual mode: at the
/// top of an empty list; when its row is now past the end of the list, on the
/// last item (scrolled to the top of the screen when the items scrolled off
/// were all deleted); otherwise where it was.
pub fn after_visual_delete(nums: Num, y: u16, new_len: usize) -> (r: (Num, u16))
    requires
        y >= BEGINNING_ROW,
        nums.skip + y <= u16::MAX,
        new_len <= u16::MAX,
    ensures
        r == if new_len == 0 {
            (Num { index: 0, skip: 0 }, BEGINNING_ROW)
        } else if nums.skip + y - BEGINNING_ROW + 1 > new_len {
            if nums.skip >= new_len {
                (Num { index: (new_len - 1) as usize, skip: (new_len - 1) as u16 }, BEGINNING_ROW)
            } else {
                (Num { index: (new_len - 1) as usize, skip: nums.skip }, (new_len - nums.skip + BEGINNING_ROW - 1) as u16)
            }
        } else {
            (nums, y)
        },
{
    if new_len == 0 {
        (Num { index: 0, skip: 0 }, BEGINNING_ROW)
    } else if (nums.skip + y - BEGINNING_ROW + 1) as usize > new_len {
        if nums.skip as usize >= new_len {
            (Num { index: new_len - 1, skip: (new_len - 1) as u16 }, BEGINNING_ROW)
        } else {
            (Num { index: new_len - 1, skip: nums.skip }, (new_len as u16) - nums.skip + BEGINNING_ROW - 1)
        }
    } else {
        (nums, y)
    }
}

/// A step down keeps the cursor on an item and on the list rows, in step with
/// the index.
pub proof fn lemma_move_down_fits(nums: Num, y: u16, row: u16, len: nat)
    requires
        row >= 4,
        len <= u16::MAX,
        cursor_fits(nums, y, row, len),
    ensures
        nums.index < usize::MAX && nums.skip < u16::MAX && y < u16::MAX,
        spec_move_down(nums, y, row, len) matches Some((n, y1)) ==> cursor_fits(n, y1, row, len),
{
}

/// A step up keeps the cursor on an item and on the list rows, in step with
/// the index.
pub proof fn lemma_move_up_fits(nums: Num, y: u16, row: u16, len: nat)
    requires
        row >= 4,
        len <= u16::MAX,
        cursor_fits(nums, y, row, len),
    ensures
        y > 0,
        spec_move_up(nums, y) matches Some((n, y1)) ==> cursor_fits(n, y1, row, len),
{
}

/// Moving up, down, to the top or to the bottom keeps the cursor on an item
/// of the list and on a row of the list area, with the item under the cursor
/// `skip` items below the top one plus its distance from the first row. The
/// jump to the bottom of a list that fits on the screen keeps `skip`, so there
/// the law needs nothing to be scrolled off.
pub proof fn law_moves_keep_cursor_in_view(nums: Num, y: u16, row: u16, len: nat)
    requires
        row >= 4,
        len <= u16::MAX - BEGINNING_ROW,
        cursor_fits(nums, y, row, len),
    ensures
        spec_move_down(nums, y, row, len) matches Some((n, y1)) ==> cursor_fits(n, y1, row, len),
        spec_move_up(nums, y) matches Some((n, y1)) ==> cursor_fits(n, y1, row, len),
        cursor_fits(Num { index: 0, skip: 0 }, BEGINNING_ROW, row, len),
        len > row - BEGINNING_ROW ==> cursor_fits(
            Num { index: (len - 1) as usize, skip: (len + BEGINNING_ROW - row) as u16 },
            (row - 1) as u16,
            row,
            len,
        ),
        len <= row - BEGINNING_ROW && nums.skip == 0 ==> cursor_fits(
            Num { index: (len - 1) as usize, skip: nums.skip },
            (len + BEGINNING_ROW - 1) as u16,
            row,
            len,
        ),
{
    lemma_move_down_fits(nums, y, row, len);
    lemma_move_up_fits(nums, y, row, len);
}

/// A step down then a step up, without scrolling, return to where the cursor was.
pub proof fn law_down_then_up(nums: Num, y: u16, row: u16, len: nat)
    requires
        row >= 4,
        len <= u16::MAX,
        cursor_fits(nums, y, row, len),
        spec_move_down(nums, y, row, len) matches Some((n, y1)) && n.skip == nums.skip && y1 > BEGINNING_ROW + SCROLL_POINT,
    ensures
        spec_move_down(nums, y, row, len) matches Some((n, y1)) && spec_move_up(n, y1) == Some((nums, y)),
{
}

} // verus!
