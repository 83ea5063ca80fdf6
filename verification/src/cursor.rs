use vstd::prelude::*;
use crate::types::{Glyph, Layout, precedes, rows_view, strictly_increasing};
use crate::wrap::{lemma_wrap_strictly_increasing, wrap};

verus! {

/// The glyph in row `r`, column `c` of `rows` stands for position `idx`.
pub open spec fn holds_at(rows: Seq<Seq<Glyph>>, idx: usize, r: int, c: int) -> bool {
    0 <= r < rows.len() && 0 <= c < rows[r].len() && rows[r][c].idx == idx
}

/// Row `r`, column `c` is the first place, in reading order, that stands for `idx`.
pub open spec fn first_at(rows: Seq<Seq<Glyph>>, idx: usize, r: int, c: int) -> bool {
    &&& holds_at(rows, idx, r, c)
    &&& forall|r2: int, c2: int| holds_at(rows, idx, r2, c2) ==> !precedes(r2, c2, r, c)
}

/// Some glyph of `rows` stands for `idx`.
pub open spec fn present(rows: Seq<Seq<Glyph>>, idx: usize) -> bool {
    exists|r: int, c: int| holds_at(rows, idx, r, c)
}

/// The place just after the last glyph of the last row; the origin where there is no row.
pub open spec fn end_of(rows: Seq<Seq<Glyph>>) -> (int, int) {
    if rows.len() == 0 {
        (0, 0)
    } else {
        (rows.len() - 1, rows.last().len() as int)
    }
}

/// Where the cursor at position `idx` stands: at the first glyph that stands for
/// `idx`, and at the end of the rows where none does.
pub open spec fn locate(rows: Seq<Seq<Glyph>>, idx: usize) -> (int, int) {
    if present(rows, idx) {
        choose|p: (int, int)| first_at(rows, idx, p.0, p.1)
    } else {
        end_of(rows)
    }
}

/// A first place is the only first place.
pub proof fn lemma_first_at_is_located(rows: Seq<Seq<Glyph>>, idx: usize, r: int, c: int)
    requires
        first_at(rows, idx, r, c),
    ensures
        locate(rows, idx) == (r, c),
{
    assert(holds_at(rows, idx, r, c));
    let p = choose|p: (int, int)| first_at(rows, idx, p.0, p.1);
    assert(first_at(rows, idx, (r, c).0, (r, c).1));
    assert(first_at(rows, idx, p.0, p.1));
    assert(holds_at(rows, idx, p.0, p.1));
    assert(!precedes(p.0, p.1, r, c));
    assert(!precedes(r, c, p.0, p.1));
}

/// Looking up the position of a glyph that is in the rows gives that glyph's own
/// row and column, where positions grow strictly in reading order.
pub proof fn lemma_locate_round_trip(rows: Seq<Seq<Glyph>>, r: int, c: int)
    requires
        strictly_increasing(rows),
        0 <= r < rows.len(),
        0 <= c < rows[r].len(),
    ensures
        locate(rows, rows[r][c].idx) == (r, c),
{
    lemma_first_at_is_located(rows, rows[r][c].idx, r, c);
}

/// In the wrapped rows of a text, a cursor at the end of the text or past it
/// stands just after the last glyph.
pub proof fn lemma_cursor_past_text(text: Seq<char>, width: u16, idx: usize)
    requires
        text.len() <= idx,
    ensures
        locate(wrap(text, width), idx) == end_of(wrap(text, width)),
{
    lemma_wrap_strictly_increasing(text, width);
}

/// Finds the row and column of the cursor at position `cursor_idx`.
pub fn cursor_row_col_from_layout(layout: &Layout, cursor_idx: usize) -> (pos: (usize, usize))
    ensures
        (pos.0 as int, pos.1 as int) == locate(rows_view(*layout), cursor_idx),
{
    let ghost rows = rows_view(*layout);
    let mut row: usize = 0;
    while row < layout.len()
        invariant
            row <= layout.len(),
            rows == rows_view(*layout),
            forall|r: int, c: int| holds_at(rows, cursor_idx, r, c) ==> r >= row,
        decreases layout.len() - row,
    {
        let line = &layout[row];
        let mut col: usize = 0;
        while col < line.len()
            invariant
                row < layout.len(),
                col <= line.len(),
                line == layout[row as int],
                rows == rows_view(*layout),
                forall|r: int, c: int|
                    holds_at(rows, cursor_idx, r, c) ==> !precedes(r, c, row as int, col as int),
            decreases line.len() - col,
        {
            if line[col].idx == cursor_idx {
                proof {
                    lemma_first_at_is_located(rows, cursor_idx, row as int, col as int);
                }
                return (row, col);
            }
            col += 1;
        }
        row += 1;
    }
    if layout.len() > 0 {
        (layout.len() - 1, layout[layout.len() - 1].len())
    } else {
        (0, 0)
    }
}

} // verus!
