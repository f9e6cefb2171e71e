//! Instants: UTC timestamps with second resolution, counted from the Unix
//! epoch, and their correspondence with civil (date + clock time) values.

use vstd::prelude::*;
use crate::dates::{
    Date, lemma_day_index_bounds, lemma_day_index_injective, lemma_day_index_upper, date_to_days,
    days_to_date, max_date,
};

verus! {

/// A clock time of day, 24-hour.
#[derive(Clone, Copy, PartialEq, Eq, Structural, Debug)]
pub struct TimeOfDay {
    pub hour: u8,
    pub minute: u8,
    pub second: u8,
}

impl TimeOfDay {
    pub open spec fn wf(self) -> bool {
        self.hour < 24 && self.minute < 60 && self.second < 60
    }

    /// Seconds since the day's midnight.
    pub open spec fn day_secs(self) -> int {
        self.hour * 3600 + self.minute * 60 + self.second
    }
}

/// A date with a clock time and no attached zone: ambiguous until resolved
/// against a specific zone's rules.
#[derive(Clone, Copy, PartialEq, Eq, Structural, Debug)]
pub struct CivilDateTime {
    pub date: Date,
    pub time: TimeOfDay,
}

pub open spec fn epoch_date() -> Date {
    Date { year: 1970, month: 1, day: 1 }
}

pub open spec fn epoch_day_index() -> int {
    epoch_date().day_index()
}

impl CivilDateTime {
    pub open spec fn wf(self) -> bool {
        self.date.wf() && self.time.wf()
    }

    /// The UTC instant that reads as this civil value, in seconds since the
    /// Unix epoch.
    pub open spec fn instant_secs(self) -> int {
        (self.date.day_index() - epoch_day_index()) * 86400 + self.time.day_secs()
    }
}

/// A UTC timestamp with second resolution.  Well-formed values stay inside
/// the instants that a date of years 0 through 9999 can carry.
#[derive(Clone, Copy, PartialEq, Eq, Structural, Debug)]
pub struct Instant {
    pub secs: i64,
}

pub open spec fn instant_lo() -> int {
    -epoch_day_index() * 86400
}

pub open spec fn instant_hi() -> int {
    (max_date().day_index() + 1 - epoch_day_index()) * 86400 - 1
}

impl Instant {
    pub open spec fn wf(self) -> bool {
        instant_lo() <= self.secs <= instant_hi()
    }
}

/// The civil reading of an instant in UTC.
pub open spec fn civil_of(t: int) -> CivilDateTime {
    choose|c: CivilDateTime| c.wf() && c.instant_secs() == t
}

/// A well-formed civil value's instant lies in the representable range.
pub proof fn lemma_civil_secs_range(c: CivilDateTime)
    requires
        c.wf(),
    ensures
        instant_lo() <= c.instant_secs() <= instant_hi(),
{
    lemma_day_index_bounds(c.date);
}

/// Two well-formed civil values that read as one instant are one value.
pub proof fn lemma_civil_injective(a: CivilDateTime, b: CivilDateTime)
    requires
        a.wf(),
        b.wf(),
        a.instant_secs() == b.instant_secs(),
    ensures
        a == b,
{
    let da = a.date.day_index();
    let db = b.date.day_index();
    assert(86400 * (da - db) == b.time.day_secs() - a.time.day_secs());
    if da != db {
        assert(da > db ==> 86400 * (da - db) >= 86400) by (nonlinear_arith);
        assert(da < db ==> 86400 * (da - db) <= -86400) by (nonlinear_arith);
        assert(false);
    }
    lemma_day_index_injective(a.date, b.date);
}

/// Reading an instant back from a civil value recovers the civil value: the
/// core of the round trip between stored instants and displayed civil times.
pub proof fn lemma_civil_round_trip(c: CivilDateTime)
    requires
        c.wf(),
    ensures
        civil_of(c.instant_secs()) == c,
{
    let t = c.instant_secs();
    assert(c.wf() && c.instant_secs() == t);
    let w = choose|w: CivilDateTime| w.wf() && w.instant_secs() == t;
    assert(w.wf() && w.instant_secs() == t);
    lemma_civil_injective(c, w);
}

/// The day number of the epoch date, computed.
pub fn epoch_days() -> (n: i64)
    ensures
        n == epoch_day_index(),
        0 <= n < 3660000,
{
    let d = Date { year: 1970, month: 1, day: 1 };
    proof {
        lemma_day_index_upper(d);
    }
    date_to_days(&d)
}

/// Numeric bounds on the instant range, handy for overflow reasoning.
pub proof fn lemma_instant_bounds_numeric()
    ensures
        -320000000000 < instant_lo() <= 0,
        0 < instant_hi() < 320000000000,
        instant_lo() < instant_hi(),
        instant_hi() - instant_lo() < 320000000000,
{
    lemma_day_index_upper(epoch_date());
    lemma_day_index_upper(max_date());
    lemma_day_index_bounds(epoch_date());
}

/// The smallest representable instant, computed.
pub fn instant_lo_value() -> (r: i64)
    ensures
        r == instant_lo(),
{
    -epoch_days() * 86400
}

/// The largest representable instant, computed.
pub fn instant_hi_value() -> (r: i64)
    ensures
        r == instant_hi(),
{
    let md = Date { year: 9999, month: 12, day: 31 };
    proof {
        lemma_day_index_upper(md);
    }
    let maxd = date_to_days(&md);
    (maxd + 1 - epoch_days()) * 86400 - 1
}

/// Converts a civil value, read as UTC, into its instant.
pub fn civil_to_instant(c: &CivilDateTime) -> (t: Instant)
    requires
        c.wf(),
    ensures
        t.secs == c.instant_secs(),
        t.wf(),
{
    proof {
        lemma_day_index_upper(c.date);
        lemma_civil_secs_range(*c);
    }
    let nd = date_to_days(&c.date);
    let ed = epoch_days();
    let sod = c.time.hour as i64 * 3600 + c.time.minute as i64 * 60 + c.time.second as i64;
    Instant { secs: (nd - ed) * 86400 + sod }
}

/// Converts an instant into its civil reading in UTC.
pub fn instant_to_civil(t: &Instant) -> (c: CivilDateTime)
    requires
        t.wf(),
    ensures
        c.wf(),
        c.instant_secs() == t.secs,
        c == civil_of(t.secs as int),
{
    let ed = epoch_days();
    proof {
        lemma_day_index_bounds(max_date());
        lemma_day_index_upper(max_date());
    }
    let u = t.secs + ed * 86400;
    let day = u / 86400;
    let sod = u % 86400;
    proof {
        vstd::arithmetic::div_mod::lemma_fundamental_div_mod(u as int, 86400);
        assert(u == 86400 * (u / 86400) + u % 86400);
        assert(day > max_date().day_index() ==> 86400 * day >= 86400 * (max_date().day_index()
            + 1)) by (nonlinear_arith);
    }
    let hour = sod / 3600;
    let hrem = sod % 3600;
    let minute = hrem / 60;
    let second = hrem % 60;
    proof {
        vstd::arithmetic::div_mod::lemma_fundamental_div_mod(sod as int, 3600);
        vstd::arithmetic::div_mod::lemma_fundamental_div_mod(hrem as int, 60);
        assert(hour > 23 ==> 3600 * hour >= 3600 * 24) by (nonlinear_arith);
        assert(minute > 59 ==> 60 * minute >= 3600) by (nonlinear_arith);
    }
    let date = days_to_date(day);
    let time = TimeOfDay { hour: hour as u8, minute: minute as u8, second: second as u8 };
    let c = CivilDateTime { date, time };
    proof {
        assert(c.wf() && c.instant_secs() == t.secs);
        let w = choose|w: CivilDateTime| w.wf() && w.instant_secs() == t.secs;
        assert(w.wf() && w.instant_secs() == t.secs);
        lemma_civil_injective(c, w);
    }
    c
}

} // verus!
