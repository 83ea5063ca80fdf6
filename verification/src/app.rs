use vstd::prelude::*;
use std::time::Instant;
use tui_input::Input;
use crate::clock::nanos_since;
use crate::frame::{compose_frame, frame_of, Frame, FrameView, Panel};
use crate::status::{status_line, status_text};
use crate::input::{delete_prev_char, input_chars, input_cursor, insert_char};
use crate::stats::{correct_count, count_correct, Stats};
use crate::types::TextSource;
use crate::words::{draw_picks, join_picks, text_of, valid_picks, words_view};

verus! {

/// A key event, as the session sees it.
#[derive(Clone, Copy, Debug, PartialEq, Eq, Structural)]
pub enum Key {
    /// A printable character to insert.
    Char(char),
    /// Delete the character before the cursor.
    Backspace,
    /// Start over with a new target.
    Reset,
    /// Confirm a finished session, which starts the next one.
    Confirm,
    /// Leave the program.
    Quit,
}

/// Where a session stands.
#[derive(Clone, Copy, Debug, PartialEq, Eq, Structural)]
pub enum Phase {
    /// No keystroke yet.
    Idle,
    /// Typing, with the clock running.
    Active,
    /// The target's length has been reached.
    Finished,
}

/// A session as a mathematical value. Times are in nanoseconds.
pub struct SessionView {
    pub target: Seq<char>,
    pub typed: Seq<char>,
    pub started_at: Option<u128>,
    pub finished_at: Option<u128>,
}

impl SessionView {
    /// Where the session stands, by its two times.
    pub open spec fn phase(self) -> Phase {
        if self.finished_at is Some {
            Phase::Finished
        } else if self.started_at is Some {
            Phase::Active
        } else {
            Phase::Idle
        }
    }

    /// What holds of a session in every state: a finished session was started
    /// and has reached the target's length, an active one has not reached it,
    /// and an idle one has nothing typed.
    pub open spec fn wf(self) -> bool {
        &&& self.finished_at is Some ==> self.started_at is Some
        &&& self.finished_at is Some ==> self.typed.len() >= self.target.len()
        &&& self.phase() == Phase::Active ==> self.typed.len() < self.target.len()
        &&& self.started_at is None ==> self.typed.len() == 0
    }

    /// The idle session on `target`.
    pub open spec fn fresh(target: Seq<char>) -> SessionView {
        SessionView { target, typed: Seq::empty(), started_at: None, finished_at: None }
    }

    /// `key` starts the session over: the reset key always, the confirm key
    /// once the session is finished.
    pub open spec fn resets_on(self, key: Key) -> bool {
        key == Key::Reset || (key == Key::Confirm && self.finished_at is Some)
    }

    /// `key` edits the typed buffer: a character or backspace, until the session is finished.
    pub open spec fn edits_on(self, key: Key) -> bool {
        self.finished_at is None && (key is Char || key == Key::Backspace)
    }

    /// The typed buffer after an editing key.
    pub open spec fn typed_after(self, key: Key) -> Seq<char> {
        match key {
            Key::Char(c) => self.typed.push(c),
            Key::Backspace => if self.typed.len() > 0 {
                self.typed.drop_last()
            } else {
                self.typed
            },
            _ => self.typed,
        }
    }

    /// The session after a key that does not start it over, pressed at time
    /// `now`. An editing key changes the typed buffer, starts the clock if it
    /// is not running, and finishes the session once the typed buffer is as long
    /// as the target. Every other key leaves the session as it is.
    pub open spec fn after(self, key: Key, now: u128) -> SessionView {
        if self.edits_on(key) {
            SessionView {
                target: self.target,
                typed: self.typed_after(key),
                started_at: Some(
                    match self.started_at {
                        Some(t) => t,
                        None => now,
                    },
                ),
                finished_at: if self.typed_after(key).len() >= self.target.len() {
                    Some(now)
                } else {
                    None
                },
            }
        } else {
            self
        }
    }

    /// What the session has measured at time `now`.
    pub open spec fn stats(self, now: u128) -> Stats {
        Stats {
            elapsed_nanos: self.elapsed(now) as u128,
            total_typed: self.typed.len() as usize,
            correct: correct_count(self.typed, self.target) as usize,
        }
    }

    /// The frame that shows the session at time `now`, with the cursor at the
    /// end of the typed text.
    pub open spec fn frame(self, typed_panel: Panel, target_panel: Panel, now: u128) -> FrameView {
        frame_of(
            self.target,
            self.typed,
            self.typed.len() as usize,
            typed_panel,
            target_panel,
            status_text(self.stats(now), self.finished_at is Some),
        )
    }

    /// The time spent at time `now`: from the first keystroke to the finish, or
    /// to `now` while the session is not finished; zero before the first keystroke.
    pub open spec fn elapsed(self, now: u128) -> nat {
        match self.started_at {
            None => 0,
            Some(start) => {
                let end = match self.finished_at {
                    Some(t) => t,
                    None => now,
                };
                if end >= start {
                    (end - start) as nat
                } else {
                    0
                }
            },
        }
    }
}

/// Every session that keys lead to is well formed: a new session is, and each
/// key keeps it so.
pub proof fn lemma_keys_keep_wf(session: SessionView, key: Key, now: u128, target: Seq<char>)
    requires
        session.wf(),
    ensures
        SessionView::fresh(target).wf(),
        session.after(key, now).wf(),
{
}

/// A finished session ignores every key but those that start it over, and a
/// session that is not finished becomes finished, at the time of the key, by
/// the character that brings the typed text to the target's length.
pub proof fn lemma_finish(session: SessionView, key: Key, c: char, now: u128)
    requires
        session.wf(),
    ensures
        session.phase() == Phase::Finished ==> session.after(key, now) == session,
        session.phase() != Phase::Finished && session.typed.len() + 1 == session.target.len()
            ==> session.after(Key::Char(c), now).finished_at == Some(now),
        session.phase() != Phase::Finished && session.typed.len() + 1 < session.target.len()
            ==> session.after(Key::Char(c), now).phase() == Phase::Active,
{
}

/// While nothing is typed the accuracy is full, and while no time has been
/// spent the speed is zero.
pub proof fn lemma_stats_at_rest(session: SessionView, now: u128)
    ensures
        session.typed.len() == 0 ==> session.stats(now).accuracy_tenths_spec() == 1000,
        session.elapsed(now) == 0 ==> session.stats(now).wpm_tenths_spec() == 0,
{
}

/// A target can be drawn from `source`: there is a word to draw, or none is asked for.
pub open spec fn drawable(source: TextSource, count: usize) -> bool {
    source matches TextSource::RandomWords(dictionary) ==> count == 0 || dictionary.len() > 0
}

/// Whether a target can be drawn from `source`.
pub fn is_drawable(source: &TextSource, count: usize) -> (yes: bool)
    ensures
        yes == drawable(*source, count),
{
    match source {
        TextSource::RandomWords(dictionary) => count == 0 || dictionary.len() > 0,
        TextSource::Fixed(_) => true,
    }
}

/// `picks` are `count` picks from the dictionary of `source`, where it has one.
pub open spec fn fits(source: TextSource, count: usize, picks: Seq<usize>) -> bool {
    source matches TextSource::RandomWords(dictionary) ==> valid_picks(
        picks,
        count as nat,
        dictionary.len() as nat,
    )
}

/// The target that `source` gives with `picks`: the picked words, or the fixed text.
pub open spec fn regenerated(source: TextSource, picks: Seq<usize>) -> Seq<char> {
    match source {
        TextSource::RandomWords(dictionary) => text_of(words_view(dictionary@), picks),
        TextSource::Fixed(text) => text@,
    }
}

/// `target` is a text that `source` can give: `count` of its words, or its fixed text.
pub open spec fn yields(source: TextSource, count: usize, target: Seq<char>) -> bool {
    exists|picks: Seq<usize>| fits(source, count, picks) && target == regenerated(source, picks)
}

/// A typing session: the target, what has been typed, and when.
pub struct App {
    source: TextSource,
    target: String,
    input: Input,
    started_at: Option<u128>,
    finished_at: Option<u128>,
    count: usize,
    epoch: Instant,
}

impl View for App {
    type V = SessionView;

    closed spec fn view(&self) -> SessionView {
        SessionView {
            target: self.target@,
            typed: input_chars(self.input),
            started_at: self.started_at,
            finished_at: self.finished_at,
        }
    }
}

impl App {
    /// The source of the session's targets.
    pub closed spec fn source(&self) -> TextSource {
        self.source
    }

    /// The number of words in a target drawn at random.
    pub closed spec fn count(&self) -> usize {
        self.count
    }

    /// The cursor of the typed buffer stands at its end.
    pub closed spec fn cursor_at_end(&self) -> bool {
        input_cursor(self.input) == input_chars(self.input).len()
    }

    /// What holds of every session that this library hands out.
    pub open spec fn wf(&self) -> bool {
        &&& self.cursor_at_end()
        &&& self@.wf()
        &&& drawable(self.source(), self.count())
        &&& yields(self.source(), self.count(), self@.target)
    }

    /// A new idle session whose target comes from `source` with `picks`.
    pub fn with_picks(source: TextSource, count: usize, picks: &Vec<usize>) -> (app: App)
        requires
            fits(source, count, picks@),
        ensures
            app.wf(),
            app.source() == source,
            app.count() == count,
            app@ == SessionView::fresh(regenerated(source, picks@)),
    {
        let target = match &source {
            TextSource::RandomWords(dictionary) => join_picks(dictionary.as_slice(), picks),
            TextSource::Fixed(text) => text.clone(),
        };
        App {
            source,
            target,
            input: Input::default(),
            started_at: None,
            finished_at: None,
            count,
            epoch: Instant::now(),
        }
    }

    /// A new idle session. Its target is the fixed text of `source`, or `count`
    /// words drawn at random from its dictionary.
    pub fn new(source: TextSource, count: usize) -> (app: App)
        requires
            drawable(source, count),
        ensures
            app.wf(),
            app.source() == source,
            app.count() == count,
            app@ == SessionView::fresh(app@.target),
    {
        let picks = match &source {
            TextSource::RandomWords(dictionary) => draw_picks(dictionary.len(), count),
            TextSource::Fixed(_) => Vec::new(),
        };
        App::with_picks(source, count, &picks)
    }

    /// Starts over with the target that the source gives with `picks`.
    pub fn reset_with(&mut self, picks: &Vec<usize>)
        requires
            old(self).wf(),
            fits(old(self).source(), old(self).count(), picks@),
        ensures
            final(self).wf(),
            final(self).source() == old(self).source(),
            final(self).count() == old(self).count(),
            final(self)@ == SessionView::fresh(regenerated(old(self).source(), picks@)),
    {
        self.target = match &self.source {
            TextSource::RandomWords(dictionary) => join_picks(dictionary.as_slice(), picks),
            TextSource::Fixed(text) => text.clone(),
        };
        self.input = Input::default();
        self.started_at = None;
        self.finished_at = None;
    }

    /// Starts over: a new target from the source, nothing typed, no times.
    pub fn reset(&mut self)
        requires
            old(self).wf(),
        ensures
            final(self).wf(),
            final(self).source() == old(self).source(),
            final(self).count() == old(self).count(),
            final(self)@ == SessionView::fresh(final(self)@.target),
    {
        let picks = match &self.source {
            TextSource::RandomWords(dictionary) => draw_picks(dictionary.len(), self.count),
            TextSource::Fixed(_) => Vec::new(),
        };
        self.reset_with(&picks);
    }

    /// Handles one key, pressed at time `now`.
    pub fn handle_key_at(&mut self, key: Key, now: u128)
        requires
            old(self).wf(),
        ensures
            final(self).wf(),
            final(self).source() == old(self).source(),
            final(self).count() == old(self).count(),
            old(self)@.resets_on(key) ==> final(self)@ == SessionView::fresh(final(self)@.target),
            !old(self)@.resets_on(key) ==> final(self)@ == old(self)@.after(key, now),
    {
        if self.finished_at.is_some() {
            match key {
                Key::Confirm | Key::Reset => self.reset(),
                _ => {},
            }
            return ;
        }
        match key {
            Key::Char(c) => {
                insert_char(&mut self.input, c);
                assert(input_chars(self.input) == old(self)@.typed.push(c));
                self.mark(now);
            },
            Key::Backspace => {
                delete_prev_char(&mut self.input);
                assert(input_chars(self.input) == old(self)@.typed_after(key));
                self.mark(now);
            },
            Key::Reset => self.reset(),
            _ => {},
        }
    }

    /// Records the time of an edit: the start, if this is the first, and the
    /// finish, if the typed buffer has reached the target's length.
    fn mark(&mut self, now: u128)
        ensures
            final(self).source == old(self).source,
            final(self).target == old(self).target,
            final(self).input == old(self).input,
            final(self).count == old(self).count,
            final(self).epoch == old(self).epoch,
            final(self).started_at == Some(
                match old(self).started_at {
                    Some(t) => t,
                    None => now,
                },
            ),
            final(self).finished_at == if input_chars(old(self).input).len() >= old(
                self,
            ).target@.len() {
                Some(now)
            } else {
                None
            },
    {
        if self.started_at.is_none() {
            self.started_at = Some(now);
        }
        if self.input.value().unicode_len() >= self.target.as_str().unicode_len() {
            self.finished_at = Some(now);
        } else {
            self.finished_at = None;
        }
    }

    /// Handles one key, pressed now.
    pub fn handle_key(&mut self, key: Key)
        requires
            old(self).wf(),
        ensures
            final(self).wf(),
            final(self).source() == old(self).source(),
            final(self).count() == old(self).count(),
            old(self)@.resets_on(key) ==> final(self)@ == SessionView::fresh(final(self)@.target),
            !old(self)@.resets_on(key) ==> exists|now: u128| final(self)@ == old(self)@.after(key, now),
    {
        let now = nanos_since(&self.epoch);
        self.handle_key_at(key, now);
    }

    /// What the session has measured at time `now`.
    pub fn stats_at(&self, now: u128) -> (stats: Stats)
        ensures
            stats == self@.stats(now),
            stats.elapsed_nanos == self@.elapsed(now),
            stats.total_typed == self@.typed.len(),
            stats.correct == correct_count(self@.typed, self@.target),
            stats.correct <= stats.total_typed,
    {
        let elapsed_nanos: u128 = match self.started_at {
            None => 0,
            Some(start) => {
                let end = match self.finished_at {
                    Some(t) => t,
                    None => now,
                };
                if end >= start {
                    end - start
                } else {
                    0
                }
            },
        };
        let typed = self.input.value();
        Stats {
            elapsed_nanos,
            total_typed: typed.unicode_len(),
            correct: count_correct(typed, self.target.as_str()),
        }
    }

    /// What the session has measured by now.
    pub fn stats(&self) -> (stats: Stats)
        ensures
            exists|now: u128| stats == self@.stats(now),
            self@.phase() != Phase::Active ==> stats == self@.stats(0),
            stats.total_typed == self@.typed.len(),
            stats.correct == correct_count(self@.typed, self@.target),
            stats.correct <= stats.total_typed,
    {
        let now = nanos_since(&self.epoch);
        self.stats_at(now)
    }

    /// The frame that shows the session at time `now` in panels of the given sizes.
    pub fn frame_at(&self, typed_panel: Panel, target_panel: Panel, now: u128) -> (frame: Frame)
        requires
            self.wf(),
        ensures
            frame@ == self@.frame(typed_panel, target_panel, now),
    {
        let stats = self.stats_at(now);
        let status = status_line(&stats, self.finished_at.is_some());
        compose_frame(
            self.target.as_str(),
            self.input.value(),
            self.input.cursor(),
            typed_panel,
            target_panel,
            status,
        )
    }

    /// The frame that shows the session now in panels of the given sizes.
    pub fn draw_ui(&self, typed_panel: Panel, target_panel: Panel) -> (frame: Frame)
        requires
            self.wf(),
        ensures
            exists|now: u128| frame@ == self@.frame(typed_panel, target_panel, now),
            self@.phase() != Phase::Active ==> frame@ == self@.frame(typed_panel, target_panel, 0),
    {
        let now = nanos_since(&self.epoch);
        self.frame_at(typed_panel, target_panel, now)
    }

    /// The text to type.
    pub fn target(&self) -> (target: &str)
        ensures
            target@ == self@.target,
    {
        self.target.as_str()
    }

    /// What has been typed.
    pub fn typed(&self) -> (typed: &str)
        ensures
            typed@ == self@.typed,
    {
        self.input.value()
    }

    /// The time of the first keystroke, once there has been one.
    pub fn started_at(&self) -> (time: Option<u128>)
        ensures
            time == self@.started_at,
    {
        self.started_at
    }

    /// The time at which the target's length was reached, once it has been.
    pub fn finished_at(&self) -> (time: Option<u128>)
        ensures
            time == self@.finished_at,
    {
        self.finished_at
    }

    /// Where the session stands.
    pub fn phase(&self) -> (phase: Phase)
        ensures
            phase == self@.phase(),
    {
        if self.finished_at.is_some() {
            Phase::Finished
        } else if self.started_at.is_some() {
            Phase::Active
        } else {
            Phase::Idle
        }
    }
}

} // verus!
