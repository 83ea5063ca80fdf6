use vstd::prelude::*;
use crate::text::to_chars;
use crate::words::words_view;

verus! {

/// `text` with every carriage return that a line feed follows taken out.
pub open spec fn unix_endings(text: Seq<char>) -> Seq<char>
    decreases text.len(),
{
    if text.len() == 0 {
        text
    } else if text.len() >= 2 && text[0] == '\r' && text[1] == '\n' {
        seq!['\n'] + unix_endings(text.skip(2))
    } else {
        seq![text[0]] + unix_endings(text.skip(1))
    }
}

/// The lines of `text`: what stands between its line feeds. The last line is
/// what follows the last line feed, and may be empty.
pub open spec fn lines_of(text: Seq<char>) -> Seq<Seq<char>>
    decreases text.len(),
{
    if text.len() == 0 {
        seq![Seq::<char>::empty()]
    } else {
        let before = lines_of(text.drop_last());
        if text.last() == '\n' {
            before.push(Seq::<char>::empty())
        } else {
            before.drop_last().push(before.last().push(text.last()))
        }
    }
}

/// What `str::trim` returns for a text: the text without leading and trailing whitespace.
pub uninterp spec fn trimmed(text: Seq<char>) -> Seq<char>;

/// What `str::to_lowercase` returns for a text: its lowercase form.
pub uninterp spec fn lowercased(text: Seq<char>) -> Seq<char>;

/// `str::trim` returns the text without leading and trailing whitespace.
pub assume_specification[ str::trim ](text: &str) -> (inner: &str)
    ensures
        inner@ == trimmed(text@),
;

/// `str::to_lowercase` returns the lowercase form of the text.
pub assume_specification[ str::to_lowercase ](text: &str) -> (lower: String)
    ensures
        lower@ == lowercased(text@),
;

/// The word that a line of a dictionary file holds: the line, trimmed and in lowercase.
pub open spec fn word_of(line: Seq<char>) -> Seq<char> {
    lowercased(trimmed(line))
}

/// The words of the lines, in order, without the empty ones.
pub open spec fn words_of(lines: Seq<Seq<char>>) -> Seq<Seq<char>>
    decreases lines.len(),
{
    if lines.len() == 0 {
        Seq::empty()
    } else if word_of(lines.last()).len() > 0 {
        words_of(lines.drop_last()).push(word_of(lines.last()))
    } else {
        words_of(lines.drop_last())
    }
}

/// The dictionary that a file's text holds: one word on each line.
pub open spec fn dictionary_of(text: Seq<char>) -> Seq<Seq<char>> {
    words_of(lines_of(text))
}

/// There is always a last line.
pub proof fn lemma_lines_of_nonempty(text: Seq<char>)
    ensures
        lines_of(text).len() >= 1,
    decreases text.len(),
{
    if text.len() > 0 {
        lemma_lines_of_nonempty(text.drop_last());
    }
}

/// Replaces each carriage return and line feed by a line feed alone.
pub fn unix_line_endings(text: &str) -> (unix: String)
    ensures
        unix@ == unix_endings(text@),
{
    let chars = to_chars(text);
    let n = chars.len();
    let mut unix = String::new();
    let mut i: usize = 0;
    proof {
        assert(chars@.skip(0) == chars@);
        assert(unix@ + unix_endings(chars@) == unix_endings(chars@));
    }
    while i < n
        invariant
            n == chars.len(),
            i <= n,
            unix@ + unix_endings(chars@.skip(i as int)) == unix_endings(chars@),
        decreases n - i,
    {
        let ghost rest = chars@.skip(i as int);
        if chars[i] == '\r' && i + 1 < n && chars[i + 1] == '\n' {
            unix.push('\n');
            assert(rest.skip(2) == chars@.skip(i + 2));
            assert(unix@ + unix_endings(chars@.skip(i + 2)) == unix@.drop_last() + (seq!['\n']
                + unix_endings(rest.skip(2))));
            i += 2;
        } else {
            unix.push(chars[i]);
            assert(rest.skip(1) == chars@.skip(i + 1));
            assert(unix@ + unix_endings(chars@.skip(i + 1)) == unix@.drop_last() + (seq![rest[0]]
                + unix_endings(rest.skip(1))));
            i += 1;
        }
    }
    assert(unix@ + Seq::<char>::empty() == unix@);
    unix
}

/// Adds the word of `line` to `words`, unless it is empty.
fn push_word(words: &mut Vec<String>, line: &String)
    ensures
        words_view(final(words)@) == if word_of(line@).len() > 0 {
            words_view(old(words)@).push(word_of(line@))
        } else {
            words_view(old(words)@)
        },
{
    let word = line.as_str().trim().to_lowercase();
    if !word.as_str().is_empty() {
        words.push(word);
        assert(words_view(words@) == words_view(old(words)@).push(word_of(line@)));
    }
}

/// Reads a dictionary from the text of a file that holds one word on each
/// line: each line is trimmed and put in lowercase, and empty lines are left out.
pub fn parse_dictionary(content: &str) -> (words: Vec<String>)
    ensures
        words_view(words@) == dictionary_of(content@),
{
    let chars = to_chars(content);
    let n = chars.len();
    let mut words: Vec<String> = Vec::new();
    let mut line = String::new();
    let mut i: usize = 0;
    proof {
        assert(chars@.take(0) == Seq::<char>::empty());
        assert(words_view(words@) == Seq::<Seq<char>>::empty());
        assert(lines_of(chars@.take(0)).drop_last() == Seq::<Seq<char>>::empty());
    }
    while i < n
        invariant
            n == chars.len(),
            i <= n,
            line@ == lines_of(chars@.take(i as int)).last(),
            words_view(words@) == words_of(lines_of(chars@.take(i as int)).drop_last()),
        decreases n - i,
    {
        proof {
            lemma_lines_of_nonempty(chars@.take(i as int));
            assert(chars@.take(i + 1).drop_last() == chars@.take(i as int));
        }
        let ghost lines = lines_of(chars@.take(i as int));
        if chars[i] == '\n' {
            push_word(&mut words, &line);
            line = String::new();
            assert(lines_of(chars@.take(i + 1)) == lines.push(Seq::<char>::empty()));
            assert(lines_of(chars@.take(i + 1)).drop_last() == lines);
        } else {
            line.push(chars[i]);
            assert(lines_of(chars@.take(i + 1)) == lines.drop_last().push(
                lines.last().push(chars[i as int]),
            ));
            assert(lines_of(chars@.take(i + 1)).drop_last() == lines.drop_last());
        }
        i += 1;
    }
    proof {
        lemma_lines_of_nonempty(chars@);
        assert(chars@.take(n as int) == chars@);
    }
    push_word(&mut words, &line);
    words
}

} // verus!
