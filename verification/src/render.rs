use vstd::prelude::*;
use crate::types::{Glyph, Layout, rows_view};
use crate::text::{join, to_chars};

verus! {

/// How a character of the target is shown, given what has been typed.
#[derive(Clone, Copy, Debug, PartialEq, Eq, Structural)]
pub enum Style {
    /// Nothing has been typed at its position yet.
    Untyped,
    /// The typed character is the target's.
    Correct,
    /// The typed character differs from the target's, which is not a space.
    IncorrectLetter,
    /// The typed character differs from the target's, which is a space.
    IncorrectSpace,
}

/// A character of the target with the style it is shown in.
#[derive(Clone, Copy, Debug, PartialEq, Eq, Structural)]
pub struct StyledGlyph {
    pub ch: char,
    pub style: Style,
}

/// The style of glyph `g` against the typed characters, compared at the glyph's position.
pub open spec fn style_of(g: Glyph, typed: Seq<char>) -> Style {
    if g.idx >= typed.len() {
        Style::Untyped
    } else if typed[g.idx as int] == g.ch {
        Style::Correct
    } else if g.ch == ' ' {
        Style::IncorrectSpace
    } else {
        Style::IncorrectLetter
    }
}

/// A row with each glyph styled against the typed characters.
pub open spec fn styled_row(row: Seq<Glyph>, typed: Seq<char>) -> Seq<StyledGlyph> {
    Seq::new(row.len(), |c: int| StyledGlyph { ch: row[c].ch, style: style_of(row[c], typed) })
}

/// Rows with each glyph styled against the typed characters.
pub open spec fn styled_rows(rows: Seq<Seq<Glyph>>, typed: Seq<char>) -> Seq<Seq<StyledGlyph>> {
    Seq::new(rows.len(), |r: int| styled_row(rows[r], typed))
}

/// The characters of a row.
pub open spec fn row_chars(row: Seq<Glyph>) -> Seq<char> {
    Seq::new(row.len(), |c: int| row[c].ch)
}

/// The characters of each row.
pub open spec fn rows_chars(rows: Seq<Seq<Glyph>>) -> Seq<Seq<char>> {
    Seq::new(rows.len(), |r: int| row_chars(rows[r]))
}

/// Where the window over `total_rows` rows ends: `visible_height` rows after
/// `scroll_y`, or at the last row.
pub open spec fn window_end(total_rows: nat, scroll_y: nat, visible_height: nat) -> nat {
    if scroll_y + visible_height <= total_rows {
        scroll_y + visible_height
    } else {
        total_rows
    }
}

/// The rows inside the window that starts at row `scroll_y` and is `visible_height` rows high.
pub open spec fn visible<T>(rows: Seq<T>, scroll_y: nat, visible_height: nat) -> Seq<T> {
    if scroll_y < window_end(rows.len(), scroll_y, visible_height) {
        rows.subrange(scroll_y as int, window_end(rows.len(), scroll_y, visible_height) as int)
    } else {
        Seq::empty()
    }
}

/// The first row past the window, computed without overflow.
fn window_limit(total_rows: usize, scroll_y: usize, visible_height: usize) -> (end: usize)
    ensures
        end == window_end(total_rows as nat, scroll_y as nat, visible_height as nat),
{
    if scroll_y <= total_rows && visible_height <= total_rows - scroll_y {
        scroll_y + visible_height
    } else {
        total_rows
    }
}

/// Styles the rows of the target that are inside the window against what has been typed.
pub fn build_target_lines_from_layout(
    layout: &Layout,
    typed: &str,
    scroll_y: usize,
    visible_height: usize,
) -> (lines: Vec<Vec<StyledGlyph>>)
    ensures
        rows_view(lines) == styled_rows(
            visible(rows_view(*layout), scroll_y as nat, visible_height as nat),
            typed@,
        ),
{
    let typed_chars = to_chars(typed);
    let end = window_limit(layout.len(), scroll_y, visible_height);
    let ghost shown = visible(rows_view(*layout), scroll_y as nat, visible_height as nat);
    let mut lines: Vec<Vec<StyledGlyph>> = Vec::new();
    let mut row: usize = scroll_y;
    while row < end
        invariant
            end <= layout.len(),
            scroll_y <= row,
            row <= end || row == scroll_y,
            typed_chars@ == typed@,
            shown == visible(rows_view(*layout), scroll_y as nat, visible_height as nat),
            end == window_end(layout.len() as nat, scroll_y as nat, visible_height as nat),
            lines.len() == row - scroll_y,
            forall|r: int| 0 <= r < lines.len() ==> #[trigger] lines[r]@ == styled_row(shown[r], typed@),
        decreases end - row,
    {
        let line = &layout[row];
        let mut cells: Vec<StyledGlyph> = Vec::new();
        let mut col: usize = 0;
        while col < line.len()
            invariant
                col <= line.len(),
                typed_chars@ == typed@,
                cells.len() == col,
                forall|c: int| 0 <= c < col ==> #[trigger] cells[c] == (StyledGlyph {
                    ch: line[c].ch,
                    style: style_of(line[c], typed@),
                }),
            decreases line.len() - col,
        {
            let glyph = line[col];
            let style = if glyph.idx < typed_chars.len() {
                if typed_chars[glyph.idx] == glyph.ch {
                    Style::Correct
                } else if glyph.ch == ' ' {
                    Style::IncorrectSpace
                } else {
                    Style::IncorrectLetter
                }
            } else {
                Style::Untyped
            };
            cells.push(StyledGlyph { ch: glyph.ch, style });
            col += 1;
        }
        assert(cells@ == styled_row(shown[row - scroll_y], typed@));
        lines.push(cells);
        row += 1;
    }
    assert(rows_view(lines) =~= styled_rows(shown, typed@));
    lines
}

/// The rows inside the window as plain text, one line for each row.
pub fn build_typed_visible_from_layout(layout: &Layout, scroll_y: usize, visible_height: usize) -> (text: String)
    ensures
        text@ == join(
            rows_chars(visible(rows_view(*layout), scroll_y as nat, visible_height as nat)),
            seq!['\n'],
        ),
{
    let end = window_limit(layout.len(), scroll_y, visible_height);
    let ghost shown = visible(rows_view(*layout), scroll_y as nat, visible_height as nat);
    let ghost parts = rows_chars(shown);
    let mut text = String::new();
    let mut row: usize = scroll_y;
    while row < end
        invariant
            end <= layout.len(),
            scroll_y <= row,
            row <= end || row == scroll_y,
            shown == visible(rows_view(*layout), scroll_y as nat, visible_height as nat),
            parts == rows_chars(shown),
            end == window_end(layout.len() as nat, scroll_y as nat, visible_height as nat),
            text@ == join(parts.take(row - scroll_y), seq!['\n']),
        decreases end - row,
    {
        let ghost done = join(parts.take(row - scroll_y), seq!['\n']);
        if row > scroll_y {
            text.push('\n');
        }
        let ghost opened = text@;
        let line = &layout[row];
        let mut col: usize = 0;
        while col < line.len()
            invariant
                col <= line.len(),
                text@ == opened + row_chars(line@).take(col as int),
            decreases line.len() - col,
        {
            text.push(line[col].ch);
            assert(row_chars(line@).take(col + 1) == row_chars(line@).take(col as int).push(
                line[col as int].ch,
            ));
            col += 1;
        }
        proof {
            let k = row - scroll_y;
            assert(row_chars(line@).take(line.len() as int) == row_chars(line@));
            assert(parts.take(k + 1).drop_last() == parts.take(k));
            assert(parts.take(k + 1).last() == row_chars(line@));
            if k == 0 {
                assert(opened == Seq::<char>::empty());
                assert(text@ == row_chars(line@));
            } else {
                assert(opened == done + seq!['\n']);
            }
        }
        row += 1;
    }
    assert(parts.take(parts.len() as int) == parts);
    assert(parts.take(0) == Seq::<Seq<char>>::empty());
    text
}

} // verus!
