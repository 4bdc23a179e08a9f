//! An elapsed duration, kept normalised by every operation on it.

use crate::model::{lemma_normalisation, lemma_plus_adds_totals, lemma_sixty_divides_sum, Hms};
use vstd::prelude::*;

verus! {

/// A duration. Every operation of this type leaves minutes and seconds
/// below 60; hours take whatever is left and are never folded into days.
#[derive(Debug, Clone, Copy, PartialEq, Eq, Structural)]
pub struct TimePeriod {
    pub hours: u128,
    pub minutes: u128,
    pub seconds: u128,
}

impl View for TimePeriod {
    type V = Hms;

    open spec fn view(&self) -> Hms {
        Hms { hours: self.hours as nat, minutes: self.minutes as nat, seconds: self.seconds as nat }
    }
}

impl Default for TimePeriod {
    fn default() -> (period: TimePeriod)
        ensures
            period@ == Hms::zero(),
    {
        TimePeriod { hours: 0, minutes: 0, seconds: 0 }
    }
}

impl TimePeriod {
    /// Whether each field of `t` fits the machine type of a period's fields.
    pub open spec fn representable(t: Hms) -> bool {
        t.hours <= u128::MAX && t.minutes <= u128::MAX && t.seconds <= u128::MAX
    }

    /// The empty duration.
    pub fn new() -> (period: TimePeriod)
        ensures
            period@ == Hms::zero(),
    {
        TimePeriod { hours: 0, minutes: 0, seconds: 0 }
    }

    /// This duration with `hours` more hours.
    pub fn add_hours(self, hours: u32) -> (period: TimePeriod)
        requires
            Self::representable(
                (Hms {
                    hours: self@.hours + hours as nat,
                    minutes: self@.minutes,
                    seconds: self@.seconds,
                }).normalised(),
            ),
        ensures
            period@ == (Hms {
                hours: self@.hours + hours as nat,
                minutes: self@.minutes,
                seconds: self@.seconds,
            }).normalised(),
    {
        let mut period = self;
        period.normalise_units();
        period.hours = period.hours + hours as u128;
        period
    }

    /// This duration with `minutes` more minutes.
    pub fn add_minutes(self, minutes: u32) -> (period: TimePeriod)
        requires
            Self::representable(
                (Hms {
                    hours: self@.hours,
                    minutes: self@.minutes + minutes as nat,
                    seconds: self@.seconds,
                }).normalised(),
            ),
        ensures
            period@ == (Hms {
                hours: self@.hours,
                minutes: self@.minutes + minutes as nat,
                seconds: self@.seconds,
            }).normalised(),
    {
        let mut period = self;
        period.normalise_units();
        period.minutes = period.minutes + minutes as u128;
        period.normalise_units();
        period
    }

    /// Folds seconds into minutes and minutes into hours.
    pub fn normalise_units(&mut self)
        requires
            Self::representable(old(self)@.normalised()),
        ensures
            final(self)@ == old(self)@.normalised(),
    {
        // The carries are added to the hours one by one: the sum of minutes
        // and carried minutes need not fit where the normalised hours do.
        let carried_minutes: u128 = self.seconds / 60;
        proof {
            lemma_sixty_divides_sum(self.minutes as nat, carried_minutes as nat);
        }
        let loose_minutes: u128 = self.minutes % 60 + carried_minutes % 60;
        self.hours = self.hours + self.minutes / 60 + carried_minutes / 60 + loose_minutes / 60;
        self.minutes = loose_minutes % 60;
        self.seconds = self.seconds % 60;
    }

    /// Adds `time_period` to this duration.
    pub fn accumulate(&mut self, time_period: &TimePeriod)
        requires
            Self::representable(old(self)@.plus(time_period@)),
        ensures
            final(self)@ == old(self)@.plus(time_period@),
    {
        let mut other: TimePeriod = *time_period;
        proof {
            lemma_plus_adds_totals(self@, other@);
            lemma_normalisation(self@);
            lemma_normalisation(other@);
            lemma_plus_adds_totals(self@.normalised(), other@.normalised());
        }
        other.normalise_units();
        self.normalise_units();
        self.hours = self.hours + other.hours;
        self.minutes = self.minutes + other.minutes;
        self.seconds = self.seconds + other.seconds;
        self.normalise_units();
    }

    /// Adds the distance between two time points, given in seconds.
    pub fn add_time_point_delta_in_seconds(&mut self, tp_delta_secs: u64)
        requires
            Self::representable(old(self)@.plus_seconds(tp_delta_secs as nat)),
        ensures
            final(self)@ == old(self)@.plus_seconds(tp_delta_secs as nat),
    {
        self.normalise_units();
        self.seconds = self.seconds + tp_delta_secs as u128;
        self.normalise_units();
    }

    /// Whether the duration is empty.
    pub fn is_null(&self) -> (null: bool)
        ensures
            null == self@.is_null(),
    {
        self.hours == 0 && self.minutes == 0 && self.seconds == 0
    }
}

} // verus!
