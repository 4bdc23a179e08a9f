//! The local wall clock, which the token `now` stands for.

use crate::model::Hms;
use crate::time_point::TimePoint;
use chrono::Timelike;
use vstd::prelude::*;

verus! {

/// What a reading of a wall clock looks like: an hour of the day, a minute
/// of the hour, and no seconds, which this library does not take from it.
pub open spec fn is_clock_reading(now: Hms) -> bool {
    now.hours < 24 && now.minutes < 60 && now.seconds == 0
}

/// Hour and minute of the local time of day, from `chrono::Local::now`,
/// `DateTime::time`, `Timelike::hour` and `Timelike::minute`.
///
/// Not proved, taken from chrono's documentation: the hour lies between 0
/// and 23 and the minute between 0 and 59. Nothing is said of which hour
/// and minute come back: two readings may differ. chrono stops the process
/// if the system clock stands before 1970.
#[verifier::external_body]
fn local_hour_and_minute() -> (reading: (u32, u32))
    ensures
        reading.0 < 24,
        reading.1 < 60,
{
    let time = chrono::Local::now().time();
    (time.hour(), time.minute())
}

/// Reads the local wall clock, to the minute.
pub fn current_time() -> (now: TimePoint)
    ensures
        is_clock_reading(now@),
{
    let (hours, minutes) = local_hour_and_minute();
    reading_to_the_minute(hours, minutes)
}

/// The time point of a clock that shows `hours` and `minutes`: those two,
/// and no seconds.
pub fn reading_to_the_minute(hours: u32, minutes: u32) -> (now: TimePoint)
    ensures
        now@ == (Hms { hours: hours as nat, minutes: minutes as nat, seconds: 0 }),
{
    TimePoint { hours, minutes, seconds: 0 }
}

} // verus!
