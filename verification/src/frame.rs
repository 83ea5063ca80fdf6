use vstd::prelude::*;
use crate::cursor::{cursor_row_col_from_layout, locate};
use crate::layout::layout_text;
use crate::render::{
    build_target_lines_from_layout, build_typed_visible_from_layout, rows_chars, styled_rows,
    visible, StyledGlyph,
};
use crate::scroll::{scroll, scroll_offset};
use crate::text::join;
use crate::types::rows_view;
use crate::wrap::wrap;

verus! {

/// The inner size of a panel, in character cells.
#[derive(Clone, Copy, Debug, PartialEq, Eq, Structural)]
pub struct Panel {
    pub width: u16,
    pub height: u16,
}

/// What one frame shows.
pub struct Frame {
    /// The visible rows of the target, styled against what has been typed.
    pub target_lines: Vec<Vec<StyledGlyph>>,
    /// The visible rows of the typed text, one line for each row.
    pub typed_text: String,
    /// The cursor's column in the typed panel.
    pub cursor_x: usize,
    /// The cursor's row in the typed panel, counted from the first visible row.
    pub cursor_y: usize,
    /// The status line.
    pub status: String,
}

/// A frame as a mathematical value.
pub struct FrameView {
    pub target_lines: Seq<Seq<StyledGlyph>>,
    pub typed_text: Seq<char>,
    pub cursor_x: int,
    pub cursor_y: int,
    pub status: Seq<char>,
}

impl View for Frame {
    type V = FrameView;

    open spec fn view(&self) -> FrameView {
        FrameView {
            target_lines: rows_view(self.target_lines),
            typed_text: self.typed_text@,
            cursor_x: self.cursor_x as int,
            cursor_y: self.cursor_y as int,
            status: self.status@,
        }
    }
}

/// The rows that a panel shows: its height, but at least one.
pub open spec fn rows_shown(panel: Panel) -> nat {
    if panel.height < 1 {
        1
    } else {
        panel.height as nat
    }
}

/// The first visible row of both panels: the typed text is wrapped at the
/// typed panel's width, and its window follows the cursor.
pub open spec fn frame_scroll(typed: Seq<char>, cursor: usize, typed_panel: Panel) -> nat {
    let typed_rows = wrap(typed, typed_panel.width);
    scroll(typed_rows.len(), rows_shown(typed_panel), locate(typed_rows, cursor).0 as nat)
}

/// The frame for a target, the typed text with its cursor, and the two panels.
/// Each text is wrapped at its own panel's width; both panels are scrolled
/// alike, by the typed panel's cursor.
pub open spec fn frame_of(
    target: Seq<char>,
    typed: Seq<char>,
    cursor: usize,
    typed_panel: Panel,
    target_panel: Panel,
    status: Seq<char>,
) -> FrameView {
    let typed_rows = wrap(typed, typed_panel.width);
    let offset = frame_scroll(typed, cursor, typed_panel);
    FrameView {
        target_lines: styled_rows(
            visible(wrap(target, target_panel.width), offset, rows_shown(target_panel)),
            typed,
        ),
        typed_text: join(
            rows_chars(visible(typed_rows, offset, rows_shown(typed_panel))),
            seq!['\n'],
        ),
        cursor_x: locate(typed_rows, cursor).1,
        cursor_y: locate(typed_rows, cursor).0 - offset,
        status,
    }
}

/// Lays out one frame.
pub fn compose_frame(
    target: &str,
    typed: &str,
    cursor: usize,
    typed_panel: Panel,
    target_panel: Panel,
    status: String,
) -> (frame: Frame)
    ensures
        frame@ == frame_of(target@, typed@, cursor, typed_panel, target_panel, status@),
{
    let typed_layout = layout_text(typed, typed_panel.width);
    let (cursor_row, cursor_col) = cursor_row_col_from_layout(&typed_layout, cursor);
    let typed_height: usize = if typed_panel.height < 1 {
        1
    } else {
        typed_panel.height as usize
    };
    let scroll_y = scroll_offset(typed_layout.len(), typed_height, cursor_row);
    let target_height: usize = if target_panel.height < 1 {
        1
    } else {
        target_panel.height as usize
    };
    let target_layout = layout_text(target, target_panel.width);
    let target_lines = build_target_lines_from_layout(
        &target_layout,
        typed,
        scroll_y,
        target_height,
    );
    let typed_text = build_typed_visible_from_layout(&typed_layout, scroll_y, typed_height);
    Frame { target_lines, typed_text, cursor_x: cursor_col, cursor_y: cursor_row - scroll_y, status }
}

} // verus!
