//! A duration in words, as the total is shown to its reader.

use crate::model::Hms;
use crate::number::{append_decimal, decimal};
use crate::time_period::TimePeriod;
use vstd::prelude::*;

verus! {

/// A count with its unit: the number, a blank, and the unit's word, which
/// is the singular for exactly one and the plural for every other count,
/// none included.
pub open spec fn unit_text(count: nat, singular: Seq<char>, plural: Seq<char>) -> Seq<char> {
    decimal(count) + " "@ + if count == 1 {
        singular
    } else {
        plural
    }
}

/// A duration in words. The minutes are always shown; the hours and the
/// seconds only where there are any.
pub open spec fn period_text(t: Hms) -> Seq<char> {
    let hours = unit_text(t.hours, "hour"@, "hours"@);
    let minutes = unit_text(t.minutes, "minute"@, "minutes"@);
    let seconds = unit_text(t.seconds, "second"@, "seconds"@);
    if t.hours > 0 && t.seconds > 0 {
        hours + ", "@ + minutes + ", "@ + seconds
    } else if t.hours > 0 {
        hours + ", "@ + minutes
    } else if t.seconds > 0 {
        minutes + ", "@ + seconds
    } else {
        minutes
    }
}

/// The line that reports total `t`.
pub open spec fn total_line_of(t: Hms) -> Seq<char> {
    "Total time: "@ + period_text(t) + "."@
}

/// Writes `count` with its unit at the end of `out`.
fn append_unit(out: &mut String, count: u128, singular: &str, plural: &str)
    ensures
        final(out)@ == old(out)@ + unit_text(count as nat, singular@, plural@),
{
    append_decimal(out, count);
    out.append(" ");
    if count == 1 {
        out.append(singular);
    } else {
        out.append(plural);
    }
    assert(out@ =~= old(out)@ + unit_text(count as nat, singular@, plural@));
}

/// Writes `period` in words at the end of `out`.
fn append_period(out: &mut String, period: &TimePeriod)
    ensures
        final(out)@ == old(out)@ + period_text(period@),
{
    if period.hours > 0 {
        append_unit(out, period.hours, "hour", "hours");
        out.append(", ");
    }
    append_unit(out, period.minutes, "minute", "minutes");
    if period.seconds > 0 {
        out.append(", ");
        append_unit(out, period.seconds, "second", "seconds");
    }
    assert(out@ =~= old(out)@ + period_text(period@));
}

impl TimePeriod {
    /// The duration in words: `6 hours, 25 minutes`.
    pub fn to_string(&self) -> (text: String)
        ensures
            text@ == period_text(self@),
    {
        let mut text = String::new();
        append_period(&mut text, self);
        assert(text@ =~= period_text(self@));
        text
    }
}

/// The line that reports `total`: `Total time: 6 hours, 25 minutes.`
pub fn total_line(total: &TimePeriod) -> (line: String)
    ensures
        line@ == total_line_of(total@),
{
    let mut line = String::new();
    line.append("Total time: ");
    append_period(&mut line, total);
    line.append(".");
    assert(line@ =~= total_line_of(total@));
    line
}

} // verus!
