use ttt::app::{App, Key};
use ttt::frame::{compose_frame, Panel};
use ttt::render::Style;
use ttt::types::TextSource;

fn line_text(line: &Vec<ttt::render::StyledGlyph>) -> String {
    line.iter().map(|g| g.ch).collect()
}

#[test]
fn frame_of_a_short_session() {
    let frame = compose_frame(
        "the quick fox",
        "the qu",
        6,
        Panel { width: 10, height: 1 },
        Panel { width: 10, height: 3 },
        "status".to_string(),
    );
    assert_eq!(frame.typed_text, "the qu");
    assert_eq!((frame.cursor_x, frame.cursor_y), (6, 0));
    assert_eq!(frame.target_lines.len(), 2);
    assert_eq!(line_text(&frame.target_lines[0]), "the quick ");
    assert_eq!(line_text(&frame.target_lines[1]), "fox");
    assert_eq!(frame.target_lines[0][5].style, Style::Correct);
    assert_eq!(frame.target_lines[0][6].style, Style::Untyped);
    assert_eq!(frame.status, "status");
}

#[test]
fn frame_scrolls_both_panels_with_the_typed_cursor() {
    let frame = compose_frame(
        "aa bb cc dd ee",
        "aa bb cc",
        8,
        Panel { width: 3, height: 1 },
        Panel { width: 3, height: 2 },
        String::new(),
    );
    assert_eq!(frame.typed_text, "cc");
    assert_eq!((frame.cursor_x, frame.cursor_y), (2, 0));
    assert_eq!(frame.target_lines.len(), 2);
    assert_eq!(line_text(&frame.target_lines[0]), "cc ");
    assert_eq!(line_text(&frame.target_lines[1]), "dd ");
}

#[test]
fn frame_panels_without_size_show_one_row_of_one_column() {
    let frame = compose_frame(
        "a b",
        "a",
        1,
        Panel { width: 0, height: 0 },
        Panel { width: 0, height: 0 },
        String::new(),
    );
    assert_eq!(frame.typed_text, "a");
    assert_eq!((frame.cursor_x, frame.cursor_y), (1, 0));
    assert_eq!(frame.target_lines.len(), 1);
    assert_eq!(line_text(&frame.target_lines[0]), "a");
}

#[test]
fn frame_of_a_session_at_a_time() {
    let mut app = App::new(TextSource::Fixed("ab cd".to_string()), 0);
    let second: u128 = 1_000_000_000;
    app.handle_key_at(Key::Char('a'), second);
    app.handle_key_at(Key::Char('x'), 2 * second);
    let frame = app.frame_at(Panel { width: 20, height: 3 }, Panel { width: 20, height: 3 }, 7 * second);
    assert_eq!(frame.typed_text, "ax");
    assert_eq!((frame.cursor_x, frame.cursor_y), (2, 0));
    assert_eq!(line_text(&frame.target_lines[0]), "ab cd");
    assert_eq!(frame.target_lines[0][0].style, Style::Correct);
    assert_eq!(frame.target_lines[0][1].style, Style::IncorrectLetter);
    assert_eq!(frame.target_lines[0][2].style, Style::Untyped);
    assert_eq!(frame.status, "Time: 6.0s | WPM: 4.0 | Accuracy: 50.0%");
}

#[test]
fn frame_of_a_finished_session_now() {
    let mut app = App::new(TextSource::Fixed("ab".to_string()), 0);
    app.handle_key_at(Key::Char('a'), 0);
    app.handle_key_at(Key::Char('b'), 3_000_000_000);
    let frame = app.draw_ui(Panel { width: 20, height: 3 }, Panel { width: 20, height: 3 });
    assert_eq!(
        frame.status,
        "Time: 3.0s | WPM: 8.0 | Accuracy: 100.0% | Finished! Press Enter to start a new test or ESC to quit."
    );
    assert_eq!(frame.typed_text, "ab");
}
