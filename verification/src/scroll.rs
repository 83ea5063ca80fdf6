use vstd::prelude::*;

verus! {

/// The furthest the window can be scrolled: the rows that do not fit in it.
pub open spec fn max_scroll(total_rows: nat, visible_height: nat) -> nat {
    if total_rows > visible_height {
        (total_rows - visible_height) as nat
    } else {
        0
    }
}

/// How far the window has to go down for the cursor's row to be its last row.
pub open spec fn desired_scroll(visible_height: nat, cursor_row: nat) -> nat {
    if cursor_row - (visible_height - 1) > 0 {
        (cursor_row - (visible_height - 1)) as nat
    } else {
        0
    }
}

/// The first visible row: the window follows the cursor down, by no more than is
/// needed, and never goes past the end of the rows.
pub open spec fn scroll(total_rows: nat, visible_height: nat, cursor_row: nat) -> nat {
    if desired_scroll(visible_height, cursor_row) <= max_scroll(total_rows, visible_height) {
        desired_scroll(visible_height, cursor_row)
    } else {
        max_scroll(total_rows, visible_height)
    }
}

/// The offset stays within the rows that do not fit, and a cursor that stands on
/// one of the rows is inside a window of at least one row.
pub proof fn lemma_scroll_keeps_cursor_visible(total_rows: nat, visible_height: nat, cursor_row: nat)
    ensures
        0 <= scroll(total_rows, visible_height, cursor_row) <= max_scroll(
            total_rows,
            visible_height,
        ),
        cursor_row < total_rows && visible_height >= 1 ==> scroll(
            total_rows,
            visible_height,
            cursor_row,
        ) <= cursor_row < scroll(total_rows, visible_height, cursor_row) + visible_height,
{
}

/// Picks the first visible row for a window of `visible_height` rows over `total_rows` rows.
pub fn scroll_offset(total_rows: usize, visible_height: usize, cursor_row: usize) -> (offset: usize)
    ensures
        offset == scroll(total_rows as nat, visible_height as nat, cursor_row as nat),
        offset <= max_scroll(total_rows as nat, visible_height as nat),
        cursor_row < total_rows && visible_height >= 1 ==> offset <= cursor_row < offset
            + visible_height,
{
    let max_scroll: usize = if total_rows > visible_height {
        total_rows - visible_height
    } else {
        0
    };
    if visible_height == 0 {
        if cursor_row < max_scroll {
            cursor_row + 1
        } else {
            max_scroll
        }
    } else {
        let desired: usize = if cursor_row > visible_height - 1 {
            cursor_row - (visible_height - 1)
        } else {
            0
        };
        if desired <= max_scroll {
            desired
        } else {
            max_scroll
        }
    }
}

} // verus!
