//! An instant within a day: the time elapsed since midnight.

use crate::model::Hms;
use vstd::prelude::*;

verus! {

/// A time of day. A point whose three fields are all zero is "null": the
/// parser hands it out for a token that it does not recognise.
#[derive(Debug, Clone, Copy, PartialEq, Eq, Structural)]
pub struct TimePoint {
    pub hours: u32,
    pub minutes: u32,
    pub seconds: u32,
}

impl View for TimePoint {
    type V = Hms;

    open spec fn view(&self) -> Hms {
        Hms { hours: self.hours as nat, minutes: self.minutes as nat, seconds: self.seconds as nat }
    }
}

impl Default for TimePoint {
    fn default() -> (point: TimePoint)
        ensures
            point@ == Hms::zero(),
    {
        TimePoint { hours: 0, minutes: 0, seconds: 0 }
    }
}

impl TimePoint {
    /// The null point, midnight.
    pub fn new() -> (point: TimePoint)
        ensures
            point@ == Hms::zero(),
    {
        TimePoint { hours: 0, minutes: 0, seconds: 0 }
    }

    /// Seconds since midnight. No field is range-checked, so the result is
    /// wider than the fields.
    pub fn get_total_time_point_in_seconds(&self) -> (total: u64)
        ensures
            total == self@.total_seconds(),
    {
        let mut final_val: u64 = self.hours as u64 * 3600;
        final_val += self.minutes as u64 * 60;
        final_val += self.seconds as u64;
        final_val
    }

    /// Whether all three fields are zero.
    pub fn is_null(&self) -> (null: bool)
        ensures
            null == self@.is_null(),
    {
        self.hours == 0 && self.minutes == 0 && self.seconds == 0
    }
}

} // verus!
