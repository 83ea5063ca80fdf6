use vstd::prelude::*;
use vstd::arithmetic::div_mod::{lemma_basic_div, lemma_fundamental_div_mod_converse};
use crate::text::to_chars;

verus! {

/// What a session has measured: the time spent, the characters typed and how
/// many of them are the target's.
#[derive(Clone, Copy, Debug, PartialEq, Eq, Structural)]
pub struct Stats {
    /// Time from the first keystroke, in nanoseconds.
    pub elapsed_nanos: u128,
    /// Characters in the typed buffer.
    pub total_typed: usize,
    /// Positions at which the typed character is the target's.
    pub correct: usize,
}

/// Among the first `n` positions, those at which `typed` and `target` agree.
pub open spec fn matches_upto(typed: Seq<char>, target: Seq<char>, n: nat) -> nat
    decreases n,
{
    if n == 0 {
        0
    } else {
        matches_upto(typed, target, (n - 1) as nat) + if typed[n - 1] == target[n - 1] {
            1nat
        } else {
            0nat
        }
    }
}

/// The positions, among those that both have, at which `typed` and `target` agree.
pub open spec fn correct_count(typed: Seq<char>, target: Seq<char>) -> nat {
    matches_upto(
        typed,
        target,
        if typed.len() <= target.len() {
            typed.len()
        } else {
            target.len()
        },
    )
}

/// `num / den`, rounded to the nearest whole number, halves upwards.
pub open spec fn rounded_div(num: nat, den: nat) -> nat {
    ((2 * num + den) / (2 * den)) as nat
}

/// Tenths of a word in a word per minute for each nanosecond, a word being five characters.
pub const WPM_SCALE: u128 = 120_000_000_000;

/// Nanoseconds in a tenth of a second.
pub const NANOS_PER_TENTH: u128 = 100_000_000;

impl Stats {
    /// The time spent, in tenths of a second.
    pub open spec fn elapsed_tenths_spec(self) -> nat {
        rounded_div(self.elapsed_nanos as nat, NANOS_PER_TENTH as nat)
    }

    /// Words per minute, in tenths: typed characters divided by five, by
    /// minute of time spent; zero while no time has been spent.
    pub open spec fn wpm_tenths_spec(self) -> nat {
        if self.elapsed_nanos == 0 {
            0
        } else {
            rounded_div(self.total_typed as nat * WPM_SCALE as nat, self.elapsed_nanos as nat)
        }
    }

    /// The share of typed characters that are correct, in tenths of a percent;
    /// all of them while nothing has been typed.
    pub open spec fn accuracy_tenths_spec(self) -> nat {
        if self.total_typed == 0 {
            1000
        } else {
            rounded_div(self.correct as nat * 1000, self.total_typed as nat)
        }
    }

    /// The time spent, in tenths of a second, rounded to the nearest.
    pub fn elapsed_tenths(&self) -> (tenths: u128)
        ensures
            tenths == self.elapsed_tenths_spec(),
    {
        let whole = self.elapsed_nanos / NANOS_PER_TENTH;
        let rest = self.elapsed_nanos % NANOS_PER_TENTH;
        if rest >= NANOS_PER_TENTH / 2 {
            proof {
                lemma_fundamental_div_mod_converse(
                    2 * self.elapsed_nanos + 100_000_000,
                    200_000_000,
                    whole + 1,
                    2 * rest - 100_000_000,
                );
            }
            whole + 1
        } else {
            proof {
                lemma_fundamental_div_mod_converse(
                    2 * self.elapsed_nanos + 100_000_000,
                    200_000_000,
                    whole as int,
                    2 * rest + 100_000_000,
                );
            }
            whole
        }
    }

    /// Words per minute in tenths, rounded to the nearest; zero while no time has been spent.
    pub fn wpm_tenths(&self) -> (tenths: u128)
        ensures
            tenths == self.wpm_tenths_spec(),
            self.elapsed_nanos == 0 ==> tenths == 0,
    {
        let scaled: u128 = 2 * (self.total_typed as u128 * WPM_SCALE);
        if self.elapsed_nanos == 0 {
            0
        } else if self.elapsed_nanos > scaled {
            proof {
                lemma_basic_div(scaled + self.elapsed_nanos, 2 * self.elapsed_nanos);
            }
            0
        } else {
            (scaled + self.elapsed_nanos) / (2 * self.elapsed_nanos)
        }
    }

    /// Accuracy in tenths of a percent, rounded to the nearest; a full
    /// thousand while nothing has been typed.
    pub fn accuracy_tenths(&self) -> (tenths: u128)
        ensures
            tenths == self.accuracy_tenths_spec(),
            self.total_typed == 0 ==> tenths == 1000,
    {
        if self.total_typed == 0 {
            1000
        } else {
            (2 * (self.correct as u128 * 1000) + self.total_typed as u128) / (2
                * self.total_typed as u128)
        }
    }
}

proof fn lemma_matches_upto_bound(typed: Seq<char>, target: Seq<char>, n: nat)
    ensures
        matches_upto(typed, target, n) <= n,
    decreases n,
{
    if n > 0 {
        lemma_matches_upto_bound(typed, target, (n - 1) as nat);
    }
}

/// No more characters are correct than have been typed, so the accuracy is
/// never above a hundred percent.
pub proof fn lemma_accuracy_bound(typed: Seq<char>, target: Seq<char>, stats: Stats)
    requires
        stats.total_typed == typed.len(),
        stats.correct == correct_count(typed, target),
    ensures
        correct_count(typed, target) <= typed.len(),
        stats.accuracy_tenths_spec() <= 1000,
{
    lemma_matches_upto_bound(
        typed,
        target,
        if typed.len() <= target.len() {
            typed.len()
        } else {
            target.len()
        },
    );
    if stats.total_typed > 0 {
        let c = stats.correct as int;
        let t = stats.total_typed as int;
        assert((2 * (c * 1000) + t) / (2 * t) <= 1000) by (nonlinear_arith)
            requires
                0 <= c <= t,
                t > 0,
        ;
    }
}

/// Counts the positions at which the typed text and the target agree.
pub fn count_correct(typed: &str, target: &str) -> (correct: usize)
    ensures
        correct == correct_count(typed@, target@),
        correct <= typed@.len(),
{
    let typed_chars = to_chars(typed);
    let target_chars = to_chars(target);
    let n = if typed_chars.len() <= target_chars.len() {
        typed_chars.len()
    } else {
        target_chars.len()
    };
    let mut correct: usize = 0;
    let mut i: usize = 0;
    while i < n
        invariant
            i <= n,
            n <= typed_chars.len(),
            n <= target_chars.len(),
            correct <= i,
            correct == matches_upto(typed_chars@, target_chars@, i as nat),
        decreases n - i,
    {
        if typed_chars[i] == target_chars[i] {
            correct += 1;
        }
        i += 1;
    }
    correct
}

} // verus!
