//! The mathematical model of instants and durations: a triple of natural
//! numbers, with the one normalisation that every duration goes through.

use vstd::arithmetic::div_mod::{lemma_fundamental_div_mod, lemma_fundamental_div_mod_converse};
use vstd::prelude::*;

verus! {

/// Hours, minutes and seconds as unbounded natural numbers.
pub struct Hms {
    pub hours: nat,
    pub minutes: nat,
    pub seconds: nat,
}

impl Hms {
    /// The triple with all three fields zero.
    pub open spec fn zero() -> Hms {
        Hms { hours: 0, minutes: 0, seconds: 0 }
    }

    /// All three fields are zero.
    pub open spec fn is_null(self) -> bool {
        self.hours == 0 && self.minutes == 0 && self.seconds == 0
    }

    /// The whole triple counted in seconds.
    pub open spec fn total_seconds(self) -> nat {
        self.hours * 3600 + self.minutes * 60 + self.seconds
    }

    /// Minutes and seconds are both below 60.
    pub open spec fn is_normalised(self) -> bool {
        self.minutes < 60 && self.seconds < 60
    }

    /// Carries whole minutes out of the seconds, then whole hours out of the
    /// minutes. Hours are never folded further.
    pub open spec fn normalised(self) -> Hms {
        let minutes = self.minutes + self.seconds / 60;
        Hms { hours: self.hours + minutes / 60, minutes: minutes % 60, seconds: self.seconds % 60 }
    }

    /// The normalised triple that lasts `total` seconds.
    pub open spec fn of_seconds(total: nat) -> Hms {
        Hms { hours: total / 3600, minutes: (total / 60) % 60, seconds: total % 60 }
    }

    /// Field-wise sum, normalised.
    pub open spec fn plus(self, other: Hms) -> Hms {
        Hms {
            hours: self.hours + other.hours,
            minutes: self.minutes + other.minutes,
            seconds: self.seconds + other.seconds,
        }.normalised()
    }

    /// `n` more seconds, normalised.
    pub open spec fn plus_seconds(self, n: nat) -> Hms {
        Hms { hours: self.hours, minutes: self.minutes, seconds: self.seconds + n }.normalised()
    }
}

/// Sixty divides a sum as it divides the terms, with one carry between them.
pub proof fn lemma_sixty_divides_sum(a: nat, b: nat)
    ensures
        (a + b) / 60 == a / 60 + b / 60 + (a % 60 + b % 60) / 60,
        (a + b) % 60 == (a % 60 + b % 60) % 60,
{
    let loose = (a % 60 + b % 60) as int;
    lemma_fundamental_div_mod(a as int, 60);
    lemma_fundamental_div_mod(b as int, 60);
    lemma_fundamental_div_mod(loose, 60);
    lemma_fundamental_div_mod_converse(
        (a + b) as int,
        60,
        a as int / 60 + b as int / 60 + loose / 60,
        loose % 60,
    );
}

/// Normalising a triple gives the canonical triple of its total.
pub proof fn lemma_normalised_is_of_seconds(t: Hms)
    ensures
        t.normalised() == Hms::of_seconds(t.total_seconds()),
{
    let total = t.total_seconds() as int;
    let carried = (t.seconds / 60) as int;
    let seconds = (t.seconds % 60) as int;
    let loose = t.minutes + carried;
    let hours = t.hours + loose / 60;
    let minutes = loose % 60;
    lemma_fundamental_div_mod(t.seconds as int, 60);
    lemma_fundamental_div_mod(loose, 60);
    assert(total == (60 * hours + minutes) * 60 + seconds);
    lemma_fundamental_div_mod_converse(total, 60, 60 * hours + minutes, seconds);
    lemma_fundamental_div_mod_converse(total / 60, 60, hours, minutes);
    assert(total == hours * 3600 + (60 * minutes + seconds));
    lemma_fundamental_div_mod_converse(total, 3600, hours, 60 * minutes + seconds);
}

/// The canonical triple of a total is normalised and lasts exactly that total.
pub proof fn lemma_of_seconds(total: nat)
    ensures
        Hms::of_seconds(total).is_normalised(),
        Hms::of_seconds(total).total_seconds() == total,
{
    let t = Hms { hours: 0, minutes: 0, seconds: total };
    lemma_normalised_is_of_seconds(t);
    lemma_fundamental_div_mod(total as int, 60);
    lemma_fundamental_div_mod(total as int / 60, 60);
}

/// A normalised triple is the canonical triple of its own total.
pub proof fn lemma_normalised_unique(t: Hms)
    requires
        t.is_normalised(),
    ensures
        t == Hms::of_seconds(t.total_seconds()),
{
    lemma_normalised_is_of_seconds(t);
    lemma_fundamental_div_mod_converse(t.seconds as int, 60, 0, t.seconds as int);
    lemma_fundamental_div_mod_converse(t.minutes as int, 60, 0, t.minutes as int);
}

/// A sum lasts as long as its two terms together, and is normalised.
pub proof fn lemma_plus_adds_totals(a: Hms, b: Hms)
    ensures
        a.plus(b).is_normalised(),
        a.plus(b).total_seconds() == a.total_seconds() + b.total_seconds(),
        a.plus(b) == Hms::of_seconds(a.total_seconds() + b.total_seconds()),
{
    let sum = Hms {
        hours: a.hours + b.hours,
        minutes: a.minutes + b.minutes,
        seconds: a.seconds + b.seconds,
    };
    lemma_normalised_is_of_seconds(sum);
    lemma_of_seconds(sum.total_seconds());
}

/// Normalisation is exact and idempotent: it leaves minutes and seconds
/// below 60, keeps the total of seconds, changes nothing when applied a
/// second time, and leaves a normalised triple as it is.
pub proof fn lemma_normalisation(t: Hms)
    ensures
        t.normalised().is_normalised(),
        t.normalised().total_seconds() == t.total_seconds(),
        t.normalised().normalised() == t.normalised(),
        t.is_normalised() ==> t.normalised() == t,
{
    lemma_normalised_is_of_seconds(t);
    lemma_of_seconds(t.total_seconds());
    lemma_normalised_is_of_seconds(t.normalised());
    if t.is_normalised() {
        lemma_normalised_unique(t);
    }
}

/// Two durations add up to the same whichever comes first.
pub proof fn lemma_plus_commutes(a: Hms, b: Hms)
    ensures
        a.plus(b) == b.plus(a),
{
    lemma_plus_adds_totals(a, b);
    lemma_plus_adds_totals(b, a);
}

/// Three durations add up to the same however they are grouped.
pub proof fn lemma_plus_associates(a: Hms, b: Hms, c: Hms)
    ensures
        a.plus(b).plus(c) == a.plus(b.plus(c)),
{
    lemma_plus_adds_totals(a, b);
    lemma_plus_adds_totals(a.plus(b), c);
    lemma_plus_adds_totals(b, c);
    lemma_plus_adds_totals(a, b.plus(c));
}

} // verus!
