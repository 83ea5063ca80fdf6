use vstd::prelude::*;
use vstd::string::StringExecFns;
use crate::stats::Stats;

verus! {

/// The character of a decimal digit.
pub open spec fn digit(d: nat) -> char {
    if d == 0 {
        '0'
    } else if d == 1 {
        '1'
    } else if d == 2 {
        '2'
    } else if d == 3 {
        '3'
    } else if d == 4 {
        '4'
    } else if d == 5 {
        '5'
    } else if d == 6 {
        '6'
    } else if d == 7 {
        '7'
    } else if d == 8 {
        '8'
    } else {
        '9'
    }
}

/// `n` in decimal digits, without leading zeros.
pub open spec fn decimal(n: nat) -> Seq<char>
    decreases n,
{
    if n < 10 {
        seq![digit(n)]
    } else {
        decimal(n / 10).push(digit(n % 10))
    }
}

/// A number of tenths with one digit after the point.
pub open spec fn tenths(n: nat) -> Seq<char> {
    decimal(n / 10) + seq!['.', digit(n % 10)]
}

/// The line that reports time, speed and accuracy.
pub open spec fn stats_text(stats: Stats) -> Seq<char> {
    "Time: "@ + tenths(stats.elapsed_tenths_spec()) + "s | WPM: "@ + tenths(
        stats.wpm_tenths_spec(),
    ) + " | Accuracy: "@ + tenths(stats.accuracy_tenths_spec()) + "%"@
}

/// The status line: the report, and once the session is finished what to do next.
pub open spec fn status_text(stats: Stats, finished: bool) -> Seq<char> {
    if finished {
        stats_text(stats) + " | Finished! Press Enter to start a new test or ESC to quit."@
    } else {
        stats_text(stats)
    }
}

fn digit_char(d: u128) -> (c: char)
    requires
        d < 10,
    ensures
        c == digit(d as nat),
{
    if d == 0 {
        '0'
    } else if d == 1 {
        '1'
    } else if d == 2 {
        '2'
    } else if d == 3 {
        '3'
    } else if d == 4 {
        '4'
    } else if d == 5 {
        '5'
    } else if d == 6 {
        '6'
    } else if d == 7 {
        '7'
    } else if d == 8 {
        '8'
    } else {
        '9'
    }
}

/// Appends `n` in decimal digits.
fn push_decimal(text: &mut String, n: u128)
    ensures
        final(text)@ == old(text)@ + decimal(n as nat),
    decreases n,
{
    if n >= 10 {
        push_decimal(text, n / 10);
    }
    text.push(digit_char(n % 10));
    assert(text@ == old(text)@ + decimal(n as nat));
}

/// Appends a number of tenths with one digit after the point.
fn push_tenths(text: &mut String, n: u128)
    ensures
        final(text)@ == old(text)@ + tenths(n as nat),
{
    push_decimal(text, n / 10);
    text.push('.');
    text.push(digit_char(n % 10));
    assert(text@ == old(text)@ + tenths(n as nat));
}

/// Writes the status line for `stats`.
pub fn status_line(stats: &Stats, finished: bool) -> (line: String)
    ensures
        line@ == status_text(*stats, finished),
{
    let mut line = String::new();
    line.append("Time: ");
    push_tenths(&mut line, stats.elapsed_tenths());
    line.append("s | WPM: ");
    push_tenths(&mut line, stats.wpm_tenths());
    line.append(" | Accuracy: ");
    push_tenths(&mut line, stats.accuracy_tenths());
    line.append("%");
    assert(line@ == stats_text(*stats));
    if finished {
        line.append(" | Finished! Press Enter to start a new test or ESC to quit.");
    }
    line
}

} // verus!
