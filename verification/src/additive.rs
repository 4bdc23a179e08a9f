//! Additive short-form durations: tokens such as `3h45m`, and sums of them
//! joined by `+`.

use crate::model::{
    lemma_normalisation, lemma_normalised_is_of_seconds, lemma_of_seconds, lemma_plus_adds_totals,
    lemma_plus_associates, lemma_plus_commutes, Hms,
};
use crate::number::{
    all_digits, digits_value, is_ascii_digit, is_ascii_letter, is_digit, is_letter, number,
};
use crate::text::{chars_of, contains_char, cuts, lemma_split_around_separator, split, split_at};
use crate::time_period::TimePeriod;
use vstd::prelude::*;
use vstd::slice::{slice_index_get, slice_subrange};

verus! {

/// What a scan of a duration token has gathered so far.
pub struct Scan {
    /// The hours added up so far.
    pub hours: nat,
    /// The minutes added up so far.
    pub minutes: nat,
    /// The digits read since the last letter.
    pub pending: Seq<char>,
    /// The letters met after a number that are no unit, in the order met.
    pub unexpected: Seq<char>,
}

/// A scan that has read nothing.
pub open spec fn scan_start() -> Scan {
    Scan { hours: 0, minutes: 0, pending: Seq::empty(), unexpected: Seq::empty() }
}

/// One character further. A digit joins the pending digits. A letter ends
/// them: if they are a number, `h` adds it to the hours, `m` adds it to the
/// minutes, and any other letter is noted as unexpected and adds nothing;
/// if they are no number, the letter adds nothing and is not noted. Any
/// other character is passed over and leaves the pending digits alone.
pub open spec fn scan_step(before: Scan, c: char) -> Scan {
    if is_digit(c) {
        Scan { pending: before.pending.push(c), ..before }
    } else if is_letter(c) {
        let ended = Scan { pending: Seq::empty(), ..before };
        match number(before.pending) {
            Some(n) => if c == 'h' {
                Scan { hours: before.hours + n as nat, ..ended }
            } else if c == 'm' {
                Scan { minutes: before.minutes + n as nat, ..ended }
            } else {
                Scan { unexpected: before.unexpected.push(c), ..ended }
            },
            None => ended,
        }
    } else {
        before
    }
}

/// The scan of a whole token, character by character from the left.
pub open spec fn scan(s: Seq<char>) -> Scan
    decreases s.len(),
{
    if s.len() == 0 {
        scan_start()
    } else {
        scan_step(scan(s.drop_last()), s.last())
    }
}

/// The duration that token `s` denotes. A token that holds neither `h` nor
/// `m` is no duration token at all; any other denotes the hours and minutes
/// that its scan adds up, which may well be none.
pub open spec fn duration_of(s: Seq<char>) -> Option<Hms> {
    if s.contains('h') || s.contains('m') {
        Some(Hms { hours: scan(s).hours, minutes: scan(s).minutes, seconds: 0 }.normalised())
    } else {
        None
    }
}

/// The letters of token `s` that a reader is told of: those that its scan
/// notes as unexpected, if it is a duration token, and none otherwise.
pub open spec fn unexpected_in(s: Seq<char>) -> Seq<char> {
    if duration_of(s) is Some {
        scan(s).unexpected
    } else {
        Seq::empty()
    }
}

/// The sum of the durations among `parts`; a part that is no duration
/// token is passed over.
pub open spec fn sum_of_durations(parts: Seq<Seq<char>>) -> Hms
    decreases parts.len(),
{
    if parts.len() == 0 {
        Hms::zero()
    } else {
        let before = sum_of_durations(parts.drop_last());
        match duration_of(parts.last()) {
            Some(duration) => before.plus(duration),
            None => before,
        }
    }
}

/// The unexpected letters of all `parts`, in order.
pub open spec fn unexpected_among(parts: Seq<Seq<char>>) -> Seq<char>
    decreases parts.len(),
{
    if parts.len() == 0 {
        Seq::empty()
    } else {
        unexpected_among(parts.drop_last()) + unexpected_in(parts.last())
    }
}

/// The total of an additive expression: the sum of its tokens between the
/// `+` signs.
pub open spec fn additions_of(s: Seq<char>) -> Hms {
    sum_of_durations(split(s, '+'))
}

/// The most seconds that a token of `len` characters can denote.
pub open spec fn longest_duration(len: nat) -> nat {
    3600 * (len * (u32::MAX as nat))
}

/// The digits pending in a scan are digits, and what a scan has added up
/// is bounded by the length of what it has read.
pub proof fn lemma_scan_bounds(s: Seq<char>)
    ensures
        all_digits(scan(s).pending),
        scan(s).hours + scan(s).minutes <= s.len() * (u32::MAX as nat),
    decreases s.len(),
{
    if s.len() > 0 {
        lemma_scan_bounds(s.drop_last());
    }
}

/// A duration is normalised and lasts no more than its token's length allows.
pub proof fn lemma_duration_bounds(s: Seq<char>)
    requires
        duration_of(s) is Some,
    ensures
        duration_of(s).unwrap().is_normalised(),
        duration_of(s).unwrap().total_seconds() <= longest_duration(s.len()),
{
    lemma_scan_bounds(s);
    let raw = Hms { hours: scan(s).hours, minutes: scan(s).minutes, seconds: 0 };
    lemma_normalised_is_of_seconds(raw);
    lemma_of_seconds(raw.total_seconds());
    assert(raw.total_seconds() <= 3600 * (scan(s).hours + scan(s).minutes));
}

/// A sum of durations is normalised.
pub proof fn lemma_sum_is_normalised(parts: Seq<Seq<char>>)
    ensures
        sum_of_durations(parts).is_normalised(),
    decreases parts.len(),
{
    if parts.len() > 0 {
        lemma_sum_is_normalised(parts.drop_last());
        if duration_of(parts.last()) is Some {
            lemma_plus_adds_totals(
                sum_of_durations(parts.drop_last()),
                duration_of(parts.last()).unwrap(),
            );
        }
    }
}

/// The sum over two lists of tokens in a row is the sum of their two sums.
pub proof fn lemma_sum_of_joined(front: Seq<Seq<char>>, back: Seq<Seq<char>>)
    ensures
        sum_of_durations(front + back) == sum_of_durations(front).plus(sum_of_durations(back)),
    decreases back.len(),
{
    let whole = front + back;
    if back.len() == 0 {
        assert(whole == front);
        lemma_sum_is_normalised(front);
        lemma_normalisation(sum_of_durations(front));
    } else {
        assert(whole.drop_last() == front + back.drop_last());
        assert(whole.last() == back.last());
        lemma_sum_of_joined(front, back.drop_last());
        if duration_of(back.last()) is Some {
            lemma_plus_associates(
                sum_of_durations(front),
                sum_of_durations(back.drop_last()),
                duration_of(back.last()).unwrap(),
            );
        }
    }
}

/// The order of the terms does not change a total: two expressions joined
/// by `+` add up to the same whichever comes first.
pub proof fn lemma_additions_commute(a: Seq<char>, b: Seq<char>)
    ensures
        additions_of(a.push('+') + b) == additions_of(b.push('+') + a),
        additions_of(a.push('+') + b) == additions_of(a).plus(additions_of(b)),
{
    lemma_split_around_separator(a, b, '+');
    lemma_split_around_separator(b, a, '+');
    lemma_sum_of_joined(split(a, '+'), split(b, '+'));
    lemma_sum_of_joined(split(b, '+'), split(a, '+'));
    lemma_plus_commutes(additions_of(a), additions_of(b));
}

/// A token read as a duration, with the letters to tell its reader of.
pub struct DurationReading {
    /// The duration that the token denotes.
    pub period: TimePeriod,
    /// The letters that stood behind a number and are no unit.
    pub unexpected: Vec<char>,
}

/// Reads the characters `s` as a duration token.
pub fn read_duration(s: &[char]) -> (reading: Option<DurationReading>)
    ensures
        match reading {
            Some(r) => duration_of(s@) == Some(r.period@) && r.unexpected@ == unexpected_in(s@),
            None => duration_of(s@) is None,
        },
{
    if !contains_char(s, 'h') && !contains_char(s, 'm') {
        return None;
    }
    let mut hours: u128 = 0;
    let mut minutes: u128 = 0;
    let mut unexpected: Vec<char> = Vec::new();
    // The pending digits are kept as their value, as long as it fits.
    let mut value: u64 = 0;
    let mut any_digit = false;
    let mut too_large = false;
    let mut i: usize = 0;
    proof {
        assert(s@.take(0) == Seq::<char>::empty());
    }
    while i < s.len()
        invariant
            i <= s@.len(),
            hours == scan(s@.take(i as int)).hours,
            minutes == scan(s@.take(i as int)).minutes,
            unexpected@ == scan(s@.take(i as int)).unexpected,
            hours + minutes <= i * (u32::MAX as nat),
            all_digits(scan(s@.take(i as int)).pending),
            any_digit == (scan(s@.take(i as int)).pending.len() > 0),
            !too_large ==> value == digits_value(scan(s@.take(i as int)).pending),
            too_large ==> digits_value(scan(s@.take(i as int)).pending) > u32::MAX,
            value <= u32::MAX,
        decreases s@.len() - i,
    {
        let c = *slice_index_get(s, i);
        let ghost before = scan(s@.take(i as int));
        proof {
            let next = s@.take(i + 1);
            assert(next.drop_last() == s@.take(i as int));
            assert(next.last() == c);
            assert(before.pending.push(c).drop_last() == before.pending);
            if before.pending.len() > 0 {
                assert(is_digit(before.pending[0]));
            }
        }
        if is_ascii_digit(c) {
            if !too_large {
                let longer = value * 10 + (c as u64 - '0' as u64);
                if longer > u32::MAX as u64 {
                    too_large = true;
                } else {
                    value = longer;
                }
            }
            any_digit = true;
        } else if is_ascii_letter(c) {
            if any_digit && !too_large {
                if c == 'h' {
                    hours = hours + value as u128;
                } else if c == 'm' {
                    minutes = minutes + value as u128;
                } else {
                    unexpected.push(c);
                }
            }
            value = 0;
            any_digit = false;
            too_large = false;
        }
        i += 1;
    }
    proof {
        assert(s@.take(i as int) == s@);
    }
    let mut period = TimePeriod { hours, minutes, seconds: 0 };
    period.normalise_units();
    Some(DurationReading { period, unexpected })
}

/// Reads `time_period_string` as a duration token such as `3h45m`. A token
/// with neither `h` nor `m` in it gives nothing.
pub fn extract_time_period_from_string(time_period_string: &str) -> (period: Option<TimePeriod>)
    ensures
        match period {
            Some(p) => duration_of(time_period_string@) == Some(p@),
            None => duration_of(time_period_string@) is None,
        },
{
    let chars = chars_of(time_period_string);
    match read_duration(chars.as_slice()) {
        Some(reading) => Some(reading.period),
        None => None,
    }
}

/// A sum of durations with the letters to tell its reader of.
pub struct AdditionsReading {
    /// The sum of the tokens that are durations.
    pub total: TimePeriod,
    /// The unexpected letters of those tokens, in order.
    pub unexpected: Vec<char>,
}

/// Adds up the duration tokens that stand between the `+` signs of `s`.
pub fn read_additions(s: &[char]) -> (reading: AdditionsReading)
    ensures
        reading.total@ == additions_of(s@),
        reading.unexpected@ == unexpected_among(split(s@, '+')),
{
    let pieces = split_at(s, '+');
    let ghost parts = split(s@, '+');
    let mut total = TimePeriod::new();
    let mut unexpected: Vec<char> = Vec::new();
    let mut i: usize = 0;
    proof {
        assert(parts.take(0) == Seq::<Seq<char>>::empty());
    }
    while i < pieces.len()
        invariant
            i <= pieces@.len(),
            parts == split(s@, '+'),
            cuts(pieces@, s@, '+'),
            total@ == sum_of_durations(parts.take(i as int)),
            unexpected@ == unexpected_among(parts.take(i as int)),
            total@.is_normalised(),
            i < pieces@.len() ==> total@.total_seconds() <= longest_duration(
                pieces@[i as int].from as nat,
            ),
        decreases pieces@.len() - i,
    {
        let piece = pieces[i];
        let token = slice_subrange(s, piece.from, piece.to);
        proof {
            assert(parts.take(i + 1).drop_last() == parts.take(i as int));
            assert(parts.take(i + 1).last() == token@);
            if i + 1 < pieces@.len() {
                assert(pieces@[i as int].to + 1 == pieces@[i + 1].from);
            }
        }
        match read_duration(token) {
            Some(mut reading) => {
                proof {
                    lemma_duration_bounds(token@);
                    lemma_plus_adds_totals(total@, reading.period@);
                    let sum = total@.total_seconds() + reading.period@.total_seconds();
                    assert(token@.len() == piece.to - piece.from);
                    assert(sum <= longest_duration(piece.to as nat));
                    assert(total@.plus(reading.period@).hours == sum / 3600);
                }
                total.accumulate(&reading.period);
                unexpected.append(&mut reading.unexpected);
            },
            None => {
                assert(unexpected@ + Seq::<char>::empty() == unexpected@);
            },
        }
        i += 1;
    }
    proof {
        assert(parts.take(i as int) == parts);
    }
    AdditionsReading { total, unexpected }
}

/// The total of an additive expression such as `3h14m+6h45m`. A token that
/// is no duration is passed over in silence.
pub fn calculate_time_period_additions(time_periods: &str) -> (total: TimePeriod)
    ensures
        total@ == additions_of(time_periods@),
{
    let chars = chars_of(time_periods);
    read_additions(chars.as_slice()).total
}

} // verus!
