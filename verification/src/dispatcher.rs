//! The whole expression: a sum of durations, a list of ranges, or one range.

use crate::additive::{additions_of, read_additions, unexpected_among};
use crate::clock::{current_time, is_clock_reading};
use crate::error::{RangeError, RangeErrorView};
use crate::model::{lemma_plus_adds_totals, Hms};
use crate::range::{
    lemma_range_bounds, lemma_range_ignores_clock, outcome_view, range_from_chars, range_of,
};
use crate::text::{chars_of, contains_char, cuts, lemma_split_keeps_chars, split, split_at};
use crate::time_period::TimePeriod;
use crate::time_point::TimePoint;
use vstd::prelude::*;
use vstd::slice::slice_subrange;

verus! {

/// The total of a list of ranges while the wall clock reads `now`. The
/// ranges are taken from the left. The first one that is refused refuses
/// the whole list, with its own reason; so does the first one that spans
/// no time, as an empty range.
pub open spec fn batch_of(parts: Seq<Seq<char>>, now: Hms) -> Result<Hms, RangeErrorView>
    decreases parts.len(),
{
    if parts.len() == 0 {
        Ok(Hms::zero())
    } else {
        match batch_of(parts.drop_last(), now) {
            Err(error) => Err(error),
            Ok(before) => match range_of(parts.last(), now) {
                Err(error) => Err(error),
                Ok(span) => if span.is_null() {
                    Err(RangeErrorView::EmptyRange)
                } else {
                    Ok(before.plus(span))
                },
            },
        }
    }
}

/// The total of expression `s` while the wall clock reads `now`.
///
/// An expression with a `+` in it is a sum of durations, and never
/// refused. Any other with a comma in it is a list of ranges. Any other is
/// a single range.
pub open spec fn total_of(s: Seq<char>, now: Hms) -> Result<Hms, RangeErrorView> {
    if s.contains('+') {
        Ok(additions_of(s))
    } else if s.contains(',') {
        batch_of(split(s, ','), now)
    } else {
        range_of(s, now)
    }
}

/// The letters of expression `s` that its reader is told of: the
/// unexpected letters of a sum of durations, and none of any other
/// expression.
pub open spec fn unexpected_of(s: Seq<char>) -> Seq<char> {
    if s.contains('+') {
        unexpected_among(split(s, '+'))
    } else {
        Seq::empty()
    }
}

/// The longest time that `count` ranges can span together, in seconds.
pub open spec fn longest_batch(count: nat) -> nat {
    3661 * (count * (u32::MAX as nat))
}

/// A list of ranges that is accepted spans a normalised time, bounded by
/// the number of its ranges.
pub proof fn lemma_batch_bounds(parts: Seq<Seq<char>>, now: Hms)
    requires
        now.hours <= u32::MAX,
        now.minutes <= u32::MAX,
    ensures
        batch_of(parts, now) matches Ok(total) ==> total.is_normalised() && total.total_seconds()
            <= longest_batch(parts.len()),
    decreases parts.len(),
{
    if parts.len() > 0 {
        lemma_batch_bounds(parts.drop_last(), now);
        lemma_range_bounds(parts.last(), now);
        if let Ok(before) = batch_of(parts.drop_last(), now) {
            if let Ok(span) = range_of(parts.last(), now) {
                lemma_plus_adds_totals(before, span);
            }
        }
    }
}

/// The total of the list of ranges that the characters `s` hold between
/// their commas.
fn batch_from_chars(s: &[char], now: &TimePoint) -> (outcome: Result<TimePeriod, RangeError>)
    ensures
        outcome_view(outcome) == batch_of(split(s@, ','), now@),
{
    let pieces = split_at(s, ',');
    let ghost parts = split(s@, ',');
    let mut total_time_period = TimePeriod::new();
    let mut i: usize = 0;
    proof {
        assert(parts.take(0) == Seq::<Seq<char>>::empty());
    }
    while i < pieces.len()
        invariant
            i <= pieces@.len(),
            parts == split(s@, ','),
            cuts(pieces@, s@, ','),
            batch_of(parts.take(i as int), now@) == Ok::<Hms, RangeErrorView>(total_time_period@),
        decreases pieces@.len() - i,
    {
        let piece = pieces[i];
        let pair = slice_subrange(s, piece.from, piece.to);
        proof {
            assert(parts.take(i + 1).drop_last() == parts.take(i as int));
            assert(parts.take(i + 1).last() == pair@);
            lemma_batch_bounds(parts.take(i as int), now@);
            lemma_range_bounds(pair@, now@);
        }
        let pair_time_period = match range_from_chars(pair, now) {
            Ok(period) => period,
            Err(error) => {
                proof {
                    lemma_batch_refused(parts, i + 1, now@);
                }
                return Err(error);
            },
        };
        if pair_time_period.is_null() {
            proof {
                lemma_batch_refused(parts, i + 1, now@);
            }
            return Err(RangeError::EmptyRange);
        }
        proof {
            lemma_plus_adds_totals(total_time_period@, pair_time_period@);
            let sum = total_time_period@.total_seconds() + pair_time_period@.total_seconds();
            assert(sum <= longest_batch((i + 1) as nat));
            assert(total_time_period@.plus(pair_time_period@).hours == sum / 3600);
        }
        total_time_period.accumulate(&pair_time_period);
        i += 1;
    }
    proof {
        assert(parts.take(i as int) == parts);
    }
    Ok(total_time_period)
}

/// A list of ranges is refused as soon as one of its fronts is, and for
/// the same reason.
pub proof fn lemma_batch_refused(parts: Seq<Seq<char>>, k: int, now: Hms)
    requires
        0 <= k <= parts.len(),
        batch_of(parts.take(k), now) is Err,
    ensures
        batch_of(parts, now) == batch_of(parts.take(k), now),
    decreases parts.len(),
{
    if k == parts.len() {
        assert(parts.take(k) == parts);
    } else {
        assert(parts.drop_last().take(k) == parts.take(k));
        lemma_batch_refused(parts.drop_last(), k, now);
    }
}

/// The total of the expression that the characters `s` hold, with `now` as
/// the reading of the wall clock.
pub fn total_from_chars(s: &[char], now: &TimePoint) -> (outcome: Result<TimePeriod, RangeError>)
    ensures
        outcome_view(outcome) == total_of(s@, now@),
{
    if contains_char(s, '+') {
        Ok(read_additions(s).total)
    } else if contains_char(s, ',') {
        batch_from_chars(s, now)
    } else {
        range_from_chars(s, now)
    }
}

/// The total of expression `times_string`, with `now` as the reading of
/// the wall clock.
pub fn calculate_duration_at(times_string: &str, now: &TimePoint) -> (outcome: Result<
    TimePeriod,
    RangeError,
>)
    ensures
        outcome_view(outcome) == total_of(times_string@, now@),
{
    let chars = chars_of(times_string);
    total_from_chars(chars.as_slice(), now)
}

/// A list of ranges, none with the letter `n` in it, has the same total
/// whatever the clock reads.
pub proof fn lemma_batch_ignores_clock(parts: Seq<Seq<char>>, now: Hms, other: Hms)
    requires
        forall|k: int| 0 <= k < parts.len() ==> !(#[trigger] parts[k]).contains('n'),
    ensures
        batch_of(parts, now) == batch_of(parts, other),
    decreases parts.len(),
{
    if parts.len() > 0 {
        let front = parts.drop_last();
        assert forall|k: int| 0 <= k < front.len() implies !(#[trigger] front[k]).contains('n') by {
            assert(front[k] == parts[k]);
        }
        lemma_batch_ignores_clock(front, now, other);
        assert(parts.last() == parts[parts.len() - 1]);
        lemma_range_ignores_clock(parts.last(), now, other);
    }
}

/// An expression without the letter `n` has the same total whatever the
/// clock reads.
pub proof fn lemma_total_ignores_clock(s: Seq<char>, now: Hms, other: Hms)
    requires
        !s.contains('n'),
    ensures
        total_of(s, now) == total_of(s, other),
{
    let parts = split(s, ',');
    assert forall|k: int| 0 <= k < parts.len() implies !(#[trigger] parts[k]).contains('n') by {
        if parts[k].contains('n') {
            lemma_split_keeps_chars(s, ',', k, 'n');
        }
    }
    lemma_batch_ignores_clock(parts, now, other);
    lemma_range_ignores_clock(s, now, other);
}

/// The total of expression `times_string`. The wall clock is read only
/// for an expression of ranges with the letter `n` in it, and then once
/// for all of its ranges.
pub fn calculate_duration(times_string: &str) -> (outcome: Result<TimePeriod, RangeError>)
    ensures
        exists|now: Hms|
            is_clock_reading(now) && outcome_view(outcome) == #[trigger] total_of(
                times_string@,
                now,
            ),
        times_string@.contains('+') || !times_string@.contains('n') ==> forall|now: Hms|
            outcome_view(outcome) == #[trigger] total_of(times_string@, now),
{
    let chars = chars_of(times_string);
    let now = if !contains_char(chars.as_slice(), '+') && contains_char(chars.as_slice(), 'n') {
        current_time()
    } else {
        TimePoint::new()
    };
    let outcome = total_from_chars(chars.as_slice(), &now);
    proof {
        assert(is_clock_reading(now@) && outcome_view(outcome) == total_of(times_string@, now@));
        assert forall|other: Hms|
            times_string@.contains('+') || !times_string@.contains('n') implies outcome_view(
            outcome,
        ) == #[trigger] total_of(times_string@, other) by {
            if !times_string@.contains('+') {
                lemma_total_ignores_clock(times_string@, now@, other);
            }
        }
    }
    outcome
}

/// The letters of expression `times_string` that its reader is told of.
pub fn unexpected_units(times_string: &str) -> (letters: Vec<char>)
    ensures
        letters@ == unexpected_of(times_string@),
{
    let chars = chars_of(times_string);
    if contains_char(chars.as_slice(), '+') {
        read_additions(chars.as_slice()).unexpected
    } else {
        Vec::new()
    }
}

} // verus!
