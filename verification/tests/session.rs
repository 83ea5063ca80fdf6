use ttt::app::{App, Key, Phase};
use ttt::types::TextSource;

fn fixed(text: &str) -> App {
    App::new(TextSource::Fixed(text.to_string()), 0)
}

fn dictionary() -> Vec<String> {
    (0..500).map(|i| format!("w{}", i)).collect()
}

fn type_text(app: &mut App, text: &str, start: u128) {
    for (i, c) in text.chars().enumerate() {
        app.handle_key_at(Key::Char(c), start + i as u128);
    }
}

#[test]
fn new_session_is_idle() {
    let app = fixed("the quick brown fox");
    assert_eq!(app.phase(), Phase::Idle);
    assert_eq!(app.target(), "the quick brown fox");
    assert_eq!(app.typed(), "");
    assert_eq!(app.started_at(), None);
    assert_eq!(app.finished_at(), None);
}

#[test]
fn new_session_of_random_words_has_count_words() {
    let dict = dictionary();
    let app = App::new(TextSource::RandomWords(dict.clone()), 12);
    let words: Vec<&str> = app.target().split(' ').collect();
    assert_eq!(words.len(), 12);
    assert!(words.iter().all(|w| dict.iter().any(|d| d == w)));
    assert_eq!(app.phase(), Phase::Idle);
}

#[test]
fn session_with_picks_has_the_picked_words() {
    let dict = vec!["one".to_string(), "two".to_string(), "three".to_string()];
    let app = App::with_picks(TextSource::RandomWords(dict), 3, &vec![2, 2, 0]);
    assert_eq!(app.target(), "three three one");
    let app = App::with_picks(TextSource::Fixed("as it is".to_string()), 3, &vec![9, 9]);
    assert_eq!(app.target(), "as it is");
}

#[test]
fn first_character_starts_the_clock() {
    let mut app = fixed("the");
    app.handle_key_at(Key::Char('t'), 1000);
    assert_eq!(app.phase(), Phase::Active);
    assert_eq!(app.started_at(), Some(1000));
    assert_eq!(app.finished_at(), None);
    assert_eq!(app.typed(), "t");
    app.handle_key_at(Key::Char('x'), 2000);
    assert_eq!(app.started_at(), Some(1000));
    assert_eq!(app.typed(), "tx");
}

#[test]
fn backspace_deletes_the_last_character() {
    let mut app = fixed("the fox");
    type_text(&mut app, "thx", 10);
    app.handle_key_at(Key::Backspace, 20);
    assert_eq!(app.typed(), "th");
    app.handle_key_at(Key::Char('e'), 30);
    assert_eq!(app.typed(), "the");
    assert_eq!(app.phase(), Phase::Active);
}

#[test]
fn backspace_on_nothing_starts_the_clock_and_types_nothing() {
    let mut app = fixed("the");
    app.handle_key_at(Key::Backspace, 7);
    assert_eq!(app.typed(), "");
    assert_eq!(app.phase(), Phase::Active);
    assert_eq!(app.started_at(), Some(7));
}

#[test]
fn confirm_and_quit_do_nothing_before_the_finish() {
    let mut app = fixed("the");
    app.handle_key_at(Key::Confirm, 5);
    app.handle_key_at(Key::Quit, 6);
    assert_eq!(app.phase(), Phase::Idle);
    assert_eq!(app.started_at(), None);
    app.handle_key_at(Key::Char('t'), 7);
    app.handle_key_at(Key::Confirm, 8);
    app.handle_key_at(Key::Quit, 9);
    assert_eq!(app.phase(), Phase::Active);
    assert_eq!(app.typed(), "t");
    assert_eq!(app.target(), "the");
}

#[test]
fn reaching_the_length_of_the_target_finishes() {
    let target = "abcdefghij klmnopqrs";
    assert_eq!(target.chars().count(), 20);
    let mut app = fixed(target);
    type_text(&mut app, "abcdefghij klmnopqr", 100);
    assert_eq!(app.phase(), Phase::Active);
    assert_eq!(app.finished_at(), None);
    app.handle_key_at(Key::Char('x'), 500);
    assert_eq!(app.phase(), Phase::Finished);
    assert_eq!(app.started_at(), Some(100));
    assert_eq!(app.finished_at(), Some(500));
    assert_eq!(app.typed().chars().count(), 20);
    app.handle_key_at(Key::Char('y'), 600);
    app.handle_key_at(Key::Backspace, 700);
    app.handle_key_at(Key::Quit, 800);
    assert_eq!(app.typed(), "abcdefghij klmnopqrx");
    assert_eq!(app.finished_at(), Some(500));
    assert_eq!(app.phase(), Phase::Finished);
}

#[test]
fn length_is_counted_in_characters() {
    let mut app = fixed("héé");
    type_text(&mut app, "hé", 1);
    assert_eq!(app.phase(), Phase::Active);
    app.handle_key_at(Key::Char('é'), 9);
    assert_eq!(app.phase(), Phase::Finished);
}

#[test]
fn empty_target_finishes_on_the_first_edit() {
    let mut app = fixed("");
    assert_eq!(app.phase(), Phase::Idle);
    app.handle_key_at(Key::Backspace, 3);
    assert_eq!(app.phase(), Phase::Finished);
    assert_eq!(app.started_at(), Some(3));
    assert_eq!(app.finished_at(), Some(3));
}

#[test]
fn confirm_after_the_finish_starts_over() {
    let mut app = fixed("ab");
    type_text(&mut app, "ab", 1);
    assert_eq!(app.phase(), Phase::Finished);
    app.handle_key_at(Key::Confirm, 50);
    assert_eq!(app.phase(), Phase::Idle);
    assert_eq!(app.typed(), "");
    assert_eq!(app.target(), "ab");
    assert_eq!(app.started_at(), None);
    assert_eq!(app.finished_at(), None);
}

#[test]
fn reset_key_starts_over_in_every_state() {
    let mut app = fixed("abc");
    app.handle_key_at(Key::Reset, 1);
    assert_eq!(app.phase(), Phase::Idle);
    assert_eq!(app.started_at(), None);
    type_text(&mut app, "ab", 2);
    app.handle_key_at(Key::Reset, 9);
    assert_eq!(app.phase(), Phase::Idle);
    assert_eq!(app.typed(), "");
    type_text(&mut app, "abc", 10);
    assert_eq!(app.phase(), Phase::Finished);
    app.handle_key_at(Key::Reset, 20);
    assert_eq!(app.phase(), Phase::Idle);
    assert_eq!(app.typed(), "");
    assert_eq!(app.started_at(), None);
    assert_eq!(app.finished_at(), None);
}

#[test]
fn reset_of_random_words_draws_a_new_target() {
    let dict = dictionary();
    let mut app = App::new(TextSource::RandomWords(dict.clone()), 20);
    let first = app.target().to_string();
    type_text(&mut app, &first, 1);
    assert_eq!(app.phase(), Phase::Finished);
    app.handle_key_at(Key::Confirm, 1_000_000);
    assert_eq!(app.phase(), Phase::Idle);
    assert_eq!(app.typed(), "");
    assert_eq!(app.started_at(), None);
    assert_eq!(app.finished_at(), None);
    let words: Vec<&str> = app.target().split(' ').collect();
    assert_eq!(words.len(), 20);
    assert!(words.iter().all(|w| dict.iter().any(|d| d == w)));
    assert_ne!(app.target(), first);
}

#[test]
fn reset_with_picks_sets_the_picked_target() {
    let dict = vec!["one".to_string(), "two".to_string()];
    let mut app = App::with_picks(TextSource::RandomWords(dict), 2, &vec![0, 0]);
    type_text(&mut app, "one", 1);
    app.reset_with(&vec![1, 0]);
    assert_eq!(app.target(), "two one");
    assert_eq!(app.typed(), "");
    assert_eq!(app.phase(), Phase::Idle);
    app.reset();
    assert_eq!(app.target().split(' ').count(), 2);
}

#[test]
fn stats_before_the_first_key() {
    let app = fixed("the");
    let stats = app.stats_at(123_456);
    assert_eq!(stats.elapsed_nanos, 0);
    assert_eq!(stats.total_typed, 0);
    assert_eq!(stats.correct, 0);
    assert_eq!(stats.accuracy_tenths(), 1000);
    assert_eq!(stats.wpm_tenths(), 0);
    assert_eq!(app.stats(), stats);
}

#[test]
fn stats_while_typing_run_to_now() {
    let mut app = fixed("the quick brown fox");
    let second: u128 = 1_000_000_000;
    app.handle_key_at(Key::Char('h'), 10 * second);
    app.handle_key_at(Key::Char('t'), 11 * second);
    app.handle_key_at(Key::Char('e'), 12 * second);
    let stats = app.stats_at(40 * second);
    assert_eq!(stats.elapsed_nanos, 30 * second);
    assert_eq!(stats.total_typed, 3);
    assert_eq!(stats.correct, 1);
    assert_eq!(stats.accuracy_tenths(), 333);
    assert_eq!(stats.wpm_tenths(), 12);
    assert_eq!(app.stats_at(5 * second).elapsed_nanos, 0);
}

#[test]
fn stats_after_the_finish_stop_at_the_finish() {
    let mut app = fixed("abcde");
    let second: u128 = 1_000_000_000;
    type_text(&mut app, "abcd", 2 * second);
    app.handle_key_at(Key::Char('e'), 8 * second);
    let stats = app.stats_at(1000 * second);
    assert_eq!(stats.elapsed_nanos, 6 * second);
    assert_eq!(stats.total_typed, 5);
    assert_eq!(stats.correct, 5);
    assert_eq!(stats.wpm_tenths(), 100);
    assert_eq!(app.stats(), stats);
}

#[test]
fn keys_pressed_now_use_the_clock() {
    let mut app = fixed("ab");
    app.handle_key(Key::Char('a'));
    assert_eq!(app.phase(), Phase::Active);
    assert_eq!(app.typed(), "a");
    let started = app.started_at().unwrap();
    let waited = std::time::Instant::now();
    while waited.elapsed().as_millis() < 20 {
        std::hint::spin_loop();
    }
    let running = app.stats();
    assert!(running.elapsed_nanos >= 20_000_000);
    app.handle_key(Key::Char('b'));
    assert_eq!(app.phase(), Phase::Finished);
    let finished = app.finished_at().unwrap();
    assert!(finished >= started + 20_000_000);
    assert_eq!(app.stats().elapsed_nanos, finished - started);
}
