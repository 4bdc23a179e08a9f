//! Reading a time of day from a token: `14:50`, `08:25:10` or `now`.

use crate::clock::{current_time, is_clock_reading};
use crate::model::Hms;
use crate::number::{decimal, lemma_number_of_decimal, number, parse_number};
use crate::text::{
    chars_of, lemma_split_around_separator, lemma_split_without_separator, split, split_at, Piece,
};
use crate::time_point::TimePoint;
use vstd::prelude::*;
use vstd::slice::{slice_index_get, slice_subrange};

verus! {

/// The time of day that token `s` denotes while the wall clock reads `now`.
///
/// The token is cut at its colons. Two pieces are hours and minutes, three
/// are hours, minutes and seconds, and each piece must be a number; none is
/// held to the range of a clock. A token without a colon denotes something
/// only if it is the word `now`: the clock's hour and minute, without its
/// seconds. Every other token denotes the null point.
pub open spec fn time_point_of(s: Seq<char>, now: Hms) -> Hms {
    let parts = split(s, ':');
    if parts.len() == 1 {
        if s == "now"@ {
            Hms { hours: now.hours, minutes: now.minutes, seconds: 0 }
        } else {
            Hms::zero()
        }
    } else if parts.len() == 2 {
        match (number(parts[0]), number(parts[1])) {
            (Some(hours), Some(minutes)) => Hms {
                hours: hours as nat,
                minutes: minutes as nat,
                seconds: 0,
            },
            _ => Hms::zero(),
        }
    } else if parts.len() == 3 {
        match (number(parts[0]), number(parts[1]), number(parts[2])) {
            (Some(hours), Some(minutes), Some(seconds)) => Hms {
                hours: hours as nat,
                minutes: minutes as nat,
                seconds: seconds as nat,
            },
            _ => Hms::zero(),
        }
    } else {
        Hms::zero()
    }
}

/// A token that is a number holds no colon.
pub proof fn lemma_number_has_no_colon(s: Seq<char>)
    requires
        number(s) is Some,
    ensures
        !s.contains(':'),
{
    if s.contains(':') {
        let i = choose|i: int| 0 <= i < s.len() && s[i] == ':';
        if s[0] == '+' {
            assert(s.skip(1)[i - 1] == s[i]);
        }
    }
}

/// Hours and minutes come back as written: for every two tokens that are
/// numbers, the two joined by a colon denote those hours and minutes, and
/// no seconds.
pub proof fn lemma_hours_and_minutes_recovered(hours: Seq<char>, minutes: Seq<char>, now: Hms)
    requires
        number(hours) is Some,
        number(minutes) is Some,
    ensures
        time_point_of(hours.push(':') + minutes, now) == (Hms {
            hours: number(hours).unwrap() as nat,
            minutes: number(minutes).unwrap() as nat,
            seconds: 0,
        }),
{
    lemma_number_has_no_colon(hours);
    lemma_number_has_no_colon(minutes);
    lemma_split_without_separator(hours, ':');
    lemma_split_without_separator(minutes, ':');
    lemma_split_around_separator(hours, minutes, ':');
    assert(seq![hours] + seq![minutes] == seq![hours, minutes]);
}

/// Hours, minutes and seconds come back as written: for every three tokens
/// that are numbers, the three joined by colons denote exactly them.
pub proof fn lemma_hours_minutes_and_seconds_recovered(
    hours: Seq<char>,
    minutes: Seq<char>,
    seconds: Seq<char>,
    now: Hms,
)
    requires
        number(hours) is Some,
        number(minutes) is Some,
        number(seconds) is Some,
    ensures
        time_point_of((hours.push(':') + minutes).push(':') + seconds, now) == (Hms {
            hours: number(hours).unwrap() as nat,
            minutes: number(minutes).unwrap() as nat,
            seconds: number(seconds).unwrap() as nat,
        }),
{
    lemma_number_has_no_colon(hours);
    lemma_number_has_no_colon(minutes);
    lemma_number_has_no_colon(seconds);
    lemma_split_without_separator(hours, ':');
    lemma_split_without_separator(minutes, ':');
    lemma_split_without_separator(seconds, ':');
    lemma_split_around_separator(hours, minutes, ':');
    lemma_split_around_separator(hours.push(':') + minutes, seconds, ':');
    assert(seq![hours] + seq![minutes] + seq![seconds] == seq![hours, minutes, seconds]);
}

/// What is written out is read back: the numerals of any hours and minutes,
/// joined by a colon, denote those hours and minutes.
pub proof fn lemma_written_time_is_read_back(hours: u32, minutes: u32, now: Hms)
    ensures
        time_point_of(decimal(hours as nat).push(':') + decimal(minutes as nat), now) == (Hms {
            hours: hours as nat,
            minutes: minutes as nat,
            seconds: 0,
        }),
{
    lemma_number_of_decimal(hours);
    lemma_number_of_decimal(minutes);
    lemma_hours_and_minutes_recovered(decimal(hours as nat), decimal(minutes as nat), now);
}

/// The word `now` denotes the hour and the minute that the clock reads,
/// and no seconds. That point is null only while the clock reads midnight.
pub proof fn lemma_now_reads_the_clock(now: Hms)
    ensures
        time_point_of("now"@, now) == (Hms { hours: now.hours, minutes: now.minutes, seconds: 0 }),
        time_point_of("now"@, now).is_null() <==> now.hours == 0 && now.minutes == 0,
{
    reveal_strlit("now");
    lemma_split_without_separator("now"@, ':');
}

/// A token without a colon that is not the word `now` denotes the null
/// point, whatever the clock reads.
pub proof fn lemma_other_word_is_null(s: Seq<char>, now: Hms)
    requires
        !s.contains(':'),
        s != "now"@,
    ensures
        time_point_of(s, now).is_null(),
{
    lemma_split_without_separator(s, ':');
}

/// A token with three colons or more denotes the null point.
pub proof fn lemma_too_many_colons_is_null(s: Seq<char>, now: Hms)
    requires
        split(s, ':').len() > 3,
    ensures
        time_point_of(s, now).is_null(),
{
}

/// A token without the letter `n` denotes the same point whatever the
/// clock reads.
pub proof fn lemma_time_point_ignores_clock(s: Seq<char>, now: Hms, other: Hms)
    requires
        !s.contains('n'),
    ensures
        time_point_of(s, now) == time_point_of(s, other),
{
    reveal_strlit("now");
    if s == "now"@ {
        assert(s[0] == 'n');
    }
}

/// Whether `s` is the word `now`, letter for letter.
fn is_now(s: &[char]) -> (yes: bool)
    ensures
        yes == (s@ == "now"@),
{
    proof {
        reveal_strlit("now");
    }
    let yes = s.len() == 3 && *slice_index_get(s, 0) == 'n' && *slice_index_get(s, 1) == 'o'
        && *slice_index_get(s, 2) == 'w';
    assert(yes ==> s@ =~= "now"@);
    yes
}

/// Reads piece `piece` of `s` as a number.
fn number_at(s: &[char], piece: Piece) -> (n: Option<u32>)
    requires
        piece.from <= piece.to <= s@.len(),
    ensures
        n == number(piece.of(s@)),
{
    parse_number(slice_subrange(s, piece.from, piece.to))
}

/// Reads the characters `s` as a time of day, with `now` as the reading of
/// the wall clock.
pub fn time_point_from_chars(s: &[char], now: &TimePoint) -> (point: TimePoint)
    ensures
        point@ == time_point_of(s@, now@),
{
    let parts = split_at(s, ':');
    if parts.len() == 1 {
        if is_now(s) {
            TimePoint { hours: now.hours, minutes: now.minutes, seconds: 0 }
        } else {
            TimePoint::new()
        }
    } else if parts.len() == 2 {
        match (number_at(s, parts[0]), number_at(s, parts[1])) {
            (Some(hours), Some(minutes)) => TimePoint { hours, minutes, seconds: 0 },
            _ => TimePoint::new(),
        }
    } else if parts.len() == 3 {
        match (number_at(s, parts[0]), number_at(s, parts[1]), number_at(s, parts[2])) {
            (Some(hours), Some(minutes), Some(seconds)) => TimePoint { hours, minutes, seconds },
            _ => TimePoint::new(),
        }
    } else {
        TimePoint::new()
    }
}

/// Reads `time_string` as a time of day, with `now` as the reading of the
/// wall clock.
pub fn extract_tp_from_string_at(time_string: &str, now: &TimePoint) -> (point: TimePoint)
    ensures
        point@ == time_point_of(time_string@, now@),
{
    let chars = chars_of(time_string);
    time_point_from_chars(chars.as_slice(), now)
}

/// Reads `time_string` as a time of day. The wall clock is read only for
/// the token `now`.
pub fn extract_tp_from_string(time_string: &str) -> (point: TimePoint)
    ensures
        exists|now: Hms| is_clock_reading(now) && point@ == #[trigger] time_point_of(
            time_string@,
            now,
        ),
        time_string@ != "now"@ ==> forall|now: Hms|
            point@ == #[trigger] time_point_of(time_string@, now),
{
    let chars = chars_of(time_string);
    let now = if is_now(chars.as_slice()) {
        current_time()
    } else {
        TimePoint::new()
    };
    let point = time_point_from_chars(chars.as_slice(), &now);
    assert(is_clock_reading(now@) && point@ == time_point_of(time_string@, now@));
    point
}

} // verus!
