use vstd::prelude::*;
use vstd::string::StringExecFns;
use rand::Rng;
use crate::text::join;

verus! {

/// The words of a dictionary as character sequences.
pub open spec fn words_view(dictionary: Seq<String>) -> Seq<Seq<char>> {
    Seq::new(dictionary.len(), |i: int| dictionary[i]@)
}

/// `picks` are `count` indices into a dictionary of `dict_len` words.
pub open spec fn valid_picks(picks: Seq<usize>, count: nat, dict_len: nat) -> bool {
    &&& picks.len() == count
    &&& forall|i: int| 0 <= i < picks.len() ==> picks[i] < dict_len
}

/// The words that `picks` select, in the order of the picks.
pub open spec fn picked(words: Seq<Seq<char>>, picks: Seq<usize>) -> Seq<Seq<char>> {
    Seq::new(picks.len(), |i: int| words[picks[i] as int])
}

/// The practice text made of the picked words, with one space between neighbours.
pub open spec fn text_of(words: Seq<Seq<char>>, picks: Seq<usize>) -> Seq<char> {
    join(picked(words, picks), seq![' '])
}

/// Draws an index below `n` from the thread's generator, by `rand::rng()` and
/// `Rng::random_range(0..n)`. The draw is random: only its range is known, and
/// `random_range` panics on an empty range, which `n > 0` leaves out.
#[verifier::external_body]
fn random_index(n: usize) -> (index: usize)
    requires
        n > 0,
    ensures
        index < n,
{
    rand::rng().random_range(0..n)
}

/// Draws `count` indices into a dictionary of `dict_len` words, with replacement.
pub fn draw_picks(dict_len: usize, count: usize) -> (picks: Vec<usize>)
    requires
        count == 0 || dict_len > 0,
    ensures
        valid_picks(picks@, count as nat, dict_len as nat),
{
    let mut picks: Vec<usize> = Vec::new();
    while picks.len() < count
        invariant
            count == 0 || dict_len > 0,
            picks.len() <= count,
            forall|i: int| 0 <= i < picks.len() ==> picks[i] < dict_len,
        decreases count - picks.len(),
    {
        picks.push(random_index(dict_len));
    }
    picks
}

/// Joins the words that `picks` select with single spaces.
pub fn join_picks(dictionary: &[String], picks: &Vec<usize>) -> (text: String)
    requires
        forall|i: int| 0 <= i < picks.len() ==> picks[i] < dictionary.len(),
    ensures
        text@ == text_of(words_view(dictionary@), picks@),
{
    let ghost parts = picked(words_view(dictionary@), picks@);
    let mut text = String::new();
    let mut i: usize = 0;
    while i < picks.len()
        invariant
            i <= picks.len(),
            forall|k: int| 0 <= k < picks.len() ==> picks[k] < dictionary.len(),
            parts == picked(words_view(dictionary@), picks@),
            text@ == join(parts.take(i as int), seq![' ']),
        decreases picks.len() - i,
    {
        let ghost done = text@;
        if i > 0 {
            text.push(' ');
        }
        text.append(dictionary[picks[i]].as_str());
        proof {
            assert(parts.take(i + 1).drop_last() == parts.take(i as int));
            assert(parts.take(i + 1).last() == dictionary[picks[i as int] as int]@);
            if i == 0 {
                assert(done + dictionary[picks[i as int] as int]@ == dictionary[picks[i as int] as int]@);
            }
        }
        i += 1;
    }
    assert(parts.take(parts.len() as int) == parts);
    text
}

/// Makes a practice text of `count` words drawn at random, with replacement,
/// from `dictionary`, joined by single spaces.
pub fn generate_text(dictionary: &[String], count: usize) -> (text: String)
    requires
        count == 0 || dictionary.len() > 0,
    ensures
        exists|picks: Seq<usize>|
            valid_picks(picks, count as nat, dictionary.len() as nat) && text@ == text_of(
                words_view(dictionary@),
                picks,
            ),
{
    let picks = draw_picks(dictionary.len(), count);
    join_picks(dictionary, &picks)
}

} // verus!
