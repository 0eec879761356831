//! The end of a run: its status, its exit code and its summary line.

use vstd::prelude::*;
use vstd::string::StringExecFns;
use crate::outcome::{Counts, Tally};

verus! {

/// Why a run could not start.
#[derive(Clone, Copy, Debug, PartialEq, Eq, Structural)]
pub enum ConfigError {
    /// The input root does not exist or is no directory.
    InputNotDirectory,
    /// The output root exists and is no directory.
    OutputNotDirectory,
    /// The output root was missing and could not be created.
    OutputNotCreated,
}

/// How a run ended.
#[derive(Clone, Copy, Debug, PartialEq, Eq, Structural)]
pub enum RunStatus {
    /// The walk completed and nothing failed.
    Success,
    /// The walk completed, and at least one visit failed.
    CompletedWithFailures,
    /// The run was refused before any traversal.
    Fatal(ConfigError),
}

/// The status of a completed walk: a success where nothing failed.
pub open spec fn status_of(counts: Counts) -> RunStatus {
    if counts.failed == 0 {
        RunStatus::Success
    } else {
        RunStatus::CompletedWithFailures
    }
}

/// The exit code of a status: zero for a success and for nothing else.
pub open spec fn exit_code_of(status: RunStatus) -> u8 {
    match status {
        RunStatus::Success => 0,
        RunStatus::Fatal(_) => 1,
        RunStatus::CompletedWithFailures => 2,
    }
}

/// The status of a completed walk.
pub fn walk_status(tally: &Tally) -> (status: RunStatus)
    ensures
        status == status_of(tally@),
{
    if tally.failed() == 0 {
        RunStatus::Success
    } else {
        RunStatus::CompletedWithFailures
    }
}

/// The code that the process exits with.
pub fn exit_code(status: RunStatus) -> (code: u8)
    ensures
        code == exit_code_of(status),
        code == 0 <==> status == RunStatus::Success,
{
    match status {
        RunStatus::Success => 0,
        RunStatus::Fatal(_) => 1,
        RunStatus::CompletedWithFailures => 2,
    }
}

/// The character of a decimal digit.
pub open spec fn digit(d: nat) -> char {
    if d == 0 {
        '0'
    } else if d == 1 {
        '1'
    } else if d == 2 {
        '2'
    } else if d == 3 {
        '3'
    } else if d == 4 {
        '4'
    } else if d == 5 {
        '5'
    } else if d == 6 {
        '6'
    } else if d == 7 {
        '7'
    } else if d == 8 {
        '8'
    } else {
        '9'
    }
}

/// A number in decimal, without leading zeros.
pub open spec fn decimal(n: nat) -> Seq<char>
    decreases n,
{
    if n < 10 {
        seq![digit(n)]
    } else {
        decimal(n / 10).push(digit(n % 10))
    }
}

/// The summary line of a run.
pub open spec fn summary_of(counts: Counts) -> Seq<char> {
    "done: processed="@ + decimal(counts.processed) + " skipped="@ + decimal(counts.skipped)
        + " failed="@ + decimal(counts.failed)
}

/// The text of one decimal digit.
fn digit_text(d: usize) -> (r: &'static str)
    requires
        d < 10,
    ensures
        r@ == seq![digit(d as nat)],
{
    proof {
        reveal_strlit("0");
        reveal_strlit("1");
        reveal_strlit("2");
        reveal_strlit("3");
        reveal_strlit("4");
        reveal_strlit("5");
        reveal_strlit("6");
        reveal_strlit("7");
        reveal_strlit("8");
        reveal_strlit("9");
    }
    let r = if d == 0 {
        "0"
    } else if d == 1 {
        "1"
    } else if d == 2 {
        "2"
    } else if d == 3 {
        "3"
    } else if d == 4 {
        "4"
    } else if d == 5 {
        "5"
    } else if d == 6 {
        "6"
    } else if d == 7 {
        "7"
    } else if d == 8 {
        "8"
    } else {
        "9"
    };
    assert(r@ =~= seq![digit(d as nat)]);
    r
}

/// Appends `n` in decimal to `text`.
pub fn push_decimal(text: &mut String, n: usize)
    ensures
        final(text)@ == old(text)@ + decimal(n as nat),
    decreases n,
{
    if n >= 10 {
        push_decimal(text, n / 10);
    }
    let ghost before = text@;
    text.append(digit_text(n % 10));
    proof {
        if n >= 10 {
            assert(text@ =~= old(text)@ + decimal((n / 10) as nat).push(digit((n % 10) as nat)));
        } else {
            assert(text@ =~= old(text)@ + seq![digit(n as nat)]);
        }
    }
}

/// The summary line of a run, as it is logged when the walk is over.
pub fn summary_line(tally: &Tally) -> (line: String)
    ensures
        line@ == summary_of(tally@),
{
    let mut line = String::from_str("done: processed=");
    push_decimal(&mut line, tally.processed());
    line.append(" skipped=");
    push_decimal(&mut line, tally.skipped());
    line.append(" failed=");
    push_decimal(&mut line, tally.failed());
    line
}

} // verus!
