use ttt::layout::layout_text;
use ttt::types::Glyph;

fn row_text(row: &Vec<Glyph>) -> String {
    row.iter().map(|g| g.ch).collect()
}

fn texts(rows: &Vec<Vec<Glyph>>) -> Vec<String> {
    rows.iter().map(row_text).collect()
}

fn indices(row: &Vec<Glyph>) -> Vec<usize> {
    row.iter().map(|g| g.idx).collect()
}

#[test]
fn wraps_before_a_word_that_does_not_fit() {
    let rows = layout_text("the quick fox", 10);
    assert_eq!(texts(&rows), vec!["the quick ", "fox"]);
    assert_eq!(row_text(&rows[0]).trim_end(), "the quick");
    assert_eq!(indices(&rows[0]), vec![0, 1, 2, 3, 4, 5, 6, 7, 8, 9]);
    assert_eq!(indices(&rows[1]), vec![10, 11, 12]);
    assert_eq!(rows[1][0], Glyph { ch: 'f', idx: 10 });
}

#[test]
fn empty_text_is_one_empty_row() {
    let rows = layout_text("", 10);
    assert_eq!(rows.len(), 1);
    assert!(rows[0].is_empty());
}

#[test]
fn only_spaces_is_one_empty_row() {
    let rows = layout_text("    ", 3);
    assert_eq!(rows.len(), 1);
    assert!(rows[0].is_empty());
}

#[test]
fn width_zero_is_width_one() {
    assert_eq!(layout_text("a b", 0), layout_text("a b", 1));
    let rows = layout_text("a b", 0);
    assert_eq!(texts(&rows), vec!["a", "b"]);
    assert_eq!(indices(&rows[1]), vec![2]);
}

#[test]
fn leading_spaces_are_dropped_and_indices_kept() {
    let rows = layout_text("  ab", 10);
    assert_eq!(texts(&rows), vec!["ab"]);
    assert_eq!(indices(&rows[0]), vec![2, 3]);
}

#[test]
fn space_on_a_full_row_ends_the_row_and_is_dropped() {
    let rows = layout_text("abc def", 3);
    assert_eq!(texts(&rows), vec!["abc", "def"]);
    assert_eq!(indices(&rows[1]), vec![4, 5, 6]);
}

#[test]
fn spaces_after_a_full_row_are_all_dropped() {
    let rows = layout_text("abc   de", 3);
    assert_eq!(texts(&rows), vec!["abc", "de"]);
    assert_eq!(indices(&rows[1]), vec![6, 7]);
}

#[test]
fn inner_spaces_are_kept_while_they_fit() {
    let rows = layout_text("a  b", 10);
    assert_eq!(texts(&rows), vec!["a  b"]);
    assert_eq!(indices(&rows[0]), vec![0, 1, 2, 3]);
}

#[test]
fn long_word_overflows_on_a_row_of_its_own() {
    let rows = layout_text("ab abcdefgh cd", 4);
    assert_eq!(texts(&rows), vec!["ab ", "abcdefgh", "cd"]);
    assert_eq!(rows[1][0].idx, 3);
    assert_eq!(rows[2][0].idx, 12);
}

#[test]
fn long_word_at_the_start_stays_on_the_first_row() {
    let rows = layout_text("abcdefgh", 3);
    assert_eq!(texts(&rows), vec!["abcdefgh"]);
}

#[test]
fn word_that_fits_exactly_stays() {
    let rows = layout_text("ab cd", 5);
    assert_eq!(texts(&rows), vec!["ab cd"]);
    let rows = layout_text("ab cd", 4);
    assert_eq!(texts(&rows), vec!["ab ", "cd"]);
}

#[test]
fn newline_is_an_ordinary_character() {
    let rows = layout_text("a\nb c", 10);
    assert_eq!(texts(&rows), vec!["a\nb c"]);
}

#[test]
fn non_ascii_text_is_indexed_by_character() {
    let rows = layout_text("héé wörld", 4);
    assert_eq!(texts(&rows), vec!["héé ", "wörld"]);
    assert_eq!(indices(&rows[1]), vec![4, 5, 6, 7, 8]);
}

#[test]
fn rows_read_in_order_follow_the_text() {
    let text = "  the  quick brown   fox jumps over the lazy dog  ";
    let chars: Vec<char> = text.chars().collect();
    for width in 0u16..20 {
        let rows = layout_text(text, width);
        assert!(rows.len() >= 1);
        let flat: Vec<Glyph> = rows.iter().flatten().copied().collect();
        for g in &flat {
            assert_eq!(chars[g.idx], g.ch);
        }
        for pair in flat.windows(2) {
            assert!(pair[0].idx < pair[1].idx);
        }
        for (i, c) in chars.iter().enumerate() {
            if !flat.iter().any(|g| g.idx == i) {
                assert_eq!(*c, ' ');
            }
        }
    }
}

#[test]
fn rows_are_no_wider_than_the_width_but_for_one_long_word() {
    let text = "a bb ccc dddd eeeee ffffff ggggggg";
    for width in 1u16..10 {
        let rows = layout_text(text, width);
        for row in &rows {
            if row.len() > width as usize {
                assert!(row.iter().all(|g| g.ch != ' '));
                let first = row[0].idx;
                for (c, g) in row.iter().enumerate() {
                    assert_eq!(g.idx, first + c);
                }
            }
        }
    }
}
