//! Ranges between two times of day: `08:25-14:50`.

use crate::clock::{current_time, is_clock_reading};
use crate::error::{RangeError, RangeErrorView};
use crate::model::{lemma_normalised_is_of_seconds, lemma_of_seconds, Hms};
use crate::point_parser::{lemma_time_point_ignores_clock, time_point_from_chars, time_point_of};
use crate::text::{chars_of, contains_char, lemma_split_keeps_chars, split, split_at};
use crate::time_period::TimePeriod;
use crate::time_point::TimePoint;
use vstd::prelude::*;
use vstd::slice::{slice_subrange, slice_to_vec};

verus! {

/// The time that range `s` spans while the wall clock reads `now`.
///
/// The range is cut at its hyphens; its first piece is the start and its
/// second the end, and further pieces are not looked at. A token without a
/// hyphen spans no time. A start or an end that denotes the null point is
/// not recognised, the start being looked at first; midnight, written
/// `00:00`, is such a point. An end before the start is refused: a range
/// does not run over midnight.
pub open spec fn range_of(s: Seq<char>, now: Hms) -> Result<Hms, RangeErrorView> {
    let parts = split(s, '-');
    if parts.len() < 2 {
        Ok(Hms::zero())
    } else {
        let start = time_point_of(parts[0], now);
        let end = time_point_of(parts[1], now);
        if start.is_null() {
            Err(RangeErrorView::UnrecognisedTime(parts[0]))
        } else if end.is_null() {
            Err(RangeErrorView::UnrecognisedTime(parts[1]))
        } else if end.total_seconds() < start.total_seconds() {
            Err(RangeErrorView::EndBeforeStart)
        } else {
            Ok(Hms::zero().plus_seconds((end.total_seconds() - start.total_seconds()) as nat))
        }
    }
}

/// An outcome with its period and its error as their views.
pub open spec fn outcome_view(outcome: Result<TimePeriod, RangeError>) -> Result<
    Hms,
    RangeErrorView,
> {
    match outcome {
        Ok(period) => Ok(period@),
        Err(error) => Err(error@),
    }
}

/// The longest time that a single range can span, in seconds.
pub open spec fn longest_range() -> nat {
    3661 * (u32::MAX as nat)
}

/// A range that is accepted spans a normalised time of as many seconds as
/// lie between its start and its end.
pub proof fn lemma_range_bounds(s: Seq<char>, now: Hms)
    requires
        now.hours <= u32::MAX,
        now.minutes <= u32::MAX,
    ensures
        range_of(s, now) matches Ok(span) ==> {
            &&& span.is_normalised()
            &&& span.total_seconds() <= longest_range()
            &&& split(s, '-').len() >= 2 ==> span.total_seconds() + time_point_of(
                split(s, '-')[0],
                now,
            ).total_seconds() == time_point_of(split(s, '-')[1], now).total_seconds()
        },
{
    let parts = split(s, '-');
    if parts.len() >= 2 {
        let start = time_point_of(parts[0], now);
        let end = time_point_of(parts[1], now);
        if end.total_seconds() >= start.total_seconds() {
            let delta = (end.total_seconds() - start.total_seconds()) as nat;
            lemma_normalised_is_of_seconds(Hms { hours: 0, minutes: 0, seconds: delta });
            lemma_of_seconds(delta);
        }
    }
}

/// A range without the letter `n` spans the same time whatever the clock
/// reads.
pub proof fn lemma_range_ignores_clock(s: Seq<char>, now: Hms, other: Hms)
    requires
        !s.contains('n'),
    ensures
        range_of(s, now) == range_of(s, other),
{
    let parts = split(s, '-');
    if parts.len() >= 2 {
        if parts[0].contains('n') {
            lemma_split_keeps_chars(s, '-', 0, 'n');
        }
        if parts[1].contains('n') {
            lemma_split_keeps_chars(s, '-', 1, 'n');
        }
        lemma_time_point_ignores_clock(parts[0], now, other);
        lemma_time_point_ignores_clock(parts[1], now, other);
    }
}

/// The time that the characters `s` span as a range, with `now` as the
/// reading of the wall clock.
pub fn range_from_chars(s: &[char], now: &TimePoint) -> (outcome: Result<TimePeriod, RangeError>)
    ensures
        outcome_view(outcome) == range_of(s@, now@),
{
    let mut tp = TimePeriod::new();
    let parts = split_at(s, '-');
    if parts.len() >= 2 {
        let start_token = slice_subrange(s, parts[0].from, parts[0].to);
        let end_token = slice_subrange(s, parts[1].from, parts[1].to);
        let start_time = time_point_from_chars(start_token, now);
        let end_time = time_point_from_chars(end_token, now);
        if start_time.is_null() {
            return Err(RangeError::UnrecognisedTime(slice_to_vec(start_token)));
        } else if end_time.is_null() {
            return Err(RangeError::UnrecognisedTime(slice_to_vec(end_token)));
        }
        let start_seconds = start_time.get_total_time_point_in_seconds();
        let end_seconds = end_time.get_total_time_point_in_seconds();
        if end_seconds < start_seconds {
            return Err(RangeError::EndBeforeStart);
        }
        tp.add_time_point_delta_in_seconds(end_seconds - start_seconds);
    }
    Ok(tp)
}

/// The time that range `tp_pair` spans. The wall clock is read only for a
/// range with the letter `n` in it, and then once for both its ends.
pub fn calculate_time_period_from_tp_pair(tp_pair: &str) -> (outcome: Result<
    TimePeriod,
    RangeError,
>)
    ensures
        exists|now: Hms|
            is_clock_reading(now) && outcome_view(outcome) == #[trigger] range_of(tp_pair@, now),
        !tp_pair@.contains('n') ==> forall|now: Hms|
            outcome_view(outcome) == #[trigger] range_of(tp_pair@, now),
{
    let chars = chars_of(tp_pair);
    let now = if contains_char(chars.as_slice(), 'n') {
        current_time()
    } else {
        TimePoint::new()
    };
    let outcome = range_from_chars(chars.as_slice(), &now);
    proof {
        assert(is_clock_reading(now@) && outcome_view(outcome) == range_of(tp_pair@, now@));
        assert forall|other: Hms| !tp_pair@.contains('n') implies outcome_view(outcome)
            == #[trigger] range_of(tp_pair@, other) by {
            lemma_range_ignores_clock(tp_pair@, now@, other);
        }
    }
    outcome
}

/// The time that range `tp_pair` spans, with `now` as the reading of the
/// wall clock.
pub fn calculate_time_period_from_tp_pair_at(tp_pair: &str, now: &TimePoint) -> (outcome: Result<
    TimePeriod,
    RangeError,
>)
    ensures
        outcome_view(outcome) == range_of(tp_pair@, now@),
{
    let chars = chars_of(tp_pair);
    range_from_chars(chars.as_slice(), now)
}

} // verus!
