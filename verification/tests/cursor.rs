use ttt::cursor::cursor_row_col_from_layout;
use ttt::layout::layout_text;
use ttt::types::Glyph;

#[test]
fn cursor_on_a_glyph_is_at_its_row_and_column() {
    let layout = layout_text("the quick fox", 10);
    assert_eq!(cursor_row_col_from_layout(&layout, 0), (0, 0));
    assert_eq!(cursor_row_col_from_layout(&layout, 4), (0, 4));
    assert_eq!(cursor_row_col_from_layout(&layout, 10), (1, 0));
    assert_eq!(cursor_row_col_from_layout(&layout, 12), (1, 2));
}

#[test]
fn cursor_round_trips_for_every_glyph() {
    for width in 0u16..12 {
        let layout = layout_text(" ab  cde f ghijklmnop  q ", width);
        for (r, row) in layout.iter().enumerate() {
            for (c, g) in row.iter().enumerate() {
                assert_eq!(cursor_row_col_from_layout(&layout, g.idx), (r, c));
            }
        }
    }
}

#[test]
fn cursor_at_the_end_of_the_text_follows_the_last_glyph() {
    let layout = layout_text("the quick fox", 10);
    assert_eq!(cursor_row_col_from_layout(&layout, 13), (1, 3));
    assert_eq!(cursor_row_col_from_layout(&layout, 1000), (1, 3));
}

#[test]
fn cursor_on_a_dropped_space_follows_the_last_glyph() {
    let layout = layout_text("abc def", 3);
    assert_eq!(cursor_row_col_from_layout(&layout, 3), (1, 3));
}

#[test]
fn cursor_in_an_empty_text_is_at_the_origin() {
    let layout = layout_text("", 5);
    assert_eq!(cursor_row_col_from_layout(&layout, 0), (0, 0));
}

#[test]
fn cursor_without_rows_is_at_the_origin() {
    let layout: Vec<Vec<Glyph>> = Vec::new();
    assert_eq!(cursor_row_col_from_layout(&layout, 3), (0, 0));
}

#[test]
fn cursor_stops_at_the_first_match() {
    let layout = vec![
        vec![Glyph { ch: 'a', idx: 5 }, Glyph { ch: 'b', idx: 7 }],
        vec![Glyph { ch: 'c', idx: 7 }],
    ];
    assert_eq!(cursor_row_col_from_layout(&layout, 7), (0, 1));
    assert_eq!(cursor_row_col_from_layout(&layout, 6), (1, 1));
}
