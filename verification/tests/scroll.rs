use ttt::scroll::scroll_offset;

#[test]
fn no_scroll_while_everything_fits() {
    assert_eq!(scroll_offset(3, 5, 2), 0);
    assert_eq!(scroll_offset(5, 5, 4), 0);
    assert_eq!(scroll_offset(0, 5, 0), 0);
}

#[test]
fn scroll_puts_the_cursor_on_the_last_visible_row() {
    assert_eq!(scroll_offset(10, 3, 0), 0);
    assert_eq!(scroll_offset(10, 3, 2), 0);
    assert_eq!(scroll_offset(10, 3, 3), 1);
    assert_eq!(scroll_offset(10, 3, 7), 5);
    assert_eq!(scroll_offset(10, 3, 9), 7);
}

#[test]
fn scroll_never_passes_the_end() {
    assert_eq!(scroll_offset(10, 3, 50), 7);
    assert_eq!(scroll_offset(2, 3, 50), 0);
    assert_eq!(scroll_offset(usize::MAX, 1, usize::MAX), usize::MAX - 1);
}

#[test]
fn scroll_with_no_height() {
    assert_eq!(scroll_offset(10, 0, 3), 4);
    assert_eq!(scroll_offset(10, 0, 10), 10);
    assert_eq!(scroll_offset(10, 0, usize::MAX), 10);
}

#[test]
fn scroll_keeps_a_cursor_on_the_rows_visible() {
    for total in 0usize..12 {
        for height in 1usize..6 {
            for cursor in 0usize..15 {
                let offset = scroll_offset(total, height, cursor);
                assert!(offset <= total.saturating_sub(height));
                if cursor < total {
                    assert!(offset <= cursor && cursor < offset + height);
                }
            }
        }
    }
}
