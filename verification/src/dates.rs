//! Calendar dates in the proleptic Gregorian calendar, years 0 through 9999
//! (the range an RFC 3339 date can carry), and their day arithmetic.

use vstd::prelude::*;

verus! {

/// A calendar date.  Well-formed values (see [`Date::wf`]) lie between
/// 0000-01-01 and 9999-12-31.
#[derive(Clone, Copy, PartialEq, Eq, Structural, Debug)]
pub struct Date {
    pub year: i64,
    pub month: u8,
    pub day: u8,
}

pub open spec fn is_leap_year(y: int) -> bool {
    (y % 4 == 0 && y % 100 != 0) || y % 400 == 0
}

pub open spec fn year_len(y: int) -> int {
    if is_leap_year(y) {
        366
    } else {
        365
    }
}

pub open spec fn month_len(y: int, m: int) -> int {
    if m == 2 {
        if is_leap_year(y) {
            29
        } else {
            28
        }
    } else if m == 4 || m == 6 || m == 9 || m == 11 {
        30
    } else {
        31
    }
}

/// Total days in the months `1 .. m` of year `y`.
pub open spec fn days_before_month(y: int, m: int) -> int
    decreases m,
{
    if m <= 1 {
        0
    } else {
        days_before_month(y, m - 1) + month_len(y, m - 1)
    }
}

/// Total days in the years `0 .. y`.
pub open spec fn days_before_year(y: int) -> int
    decreases y,
{
    if y <= 0 {
        0
    } else {
        days_before_year(y - 1) + year_len(y - 1)
    }
}

pub open spec fn min_date() -> Date {
    Date { year: 0, month: 1, day: 1 }
}

pub open spec fn max_date() -> Date {
    Date { year: 9999, month: 12, day: 31 }
}

impl Date {
    pub open spec fn wf(self) -> bool {
        &&& 0 <= self.year <= 9999
        &&& 1 <= self.month <= 12
        &&& 1 <= self.day <= month_len(self.year as int, self.month as int)
    }

    /// The date's day number: how many days lie between 0000-01-01 and it.
    pub open spec fn day_index(self) -> int {
        days_before_year(self.year as int) + days_before_month(
            self.year as int,
            self.month as int,
        ) + self.day - 1
    }
}

pub proof fn lemma_days_before_year_bounds(y: int)
    requires
        0 <= y,
    ensures
        365 * y <= days_before_year(y) <= 366 * y,
    decreases y,
{
    if y > 0 {
        lemma_days_before_year_bounds(y - 1);
    }
}

pub proof fn lemma_days_before_year_mono(a: int, b: int)
    requires
        0 <= a <= b,
    ensures
        days_before_year(a) <= days_before_year(b),
        a < b ==> days_before_year(a) + 365 <= days_before_year(b),
    decreases b,
{
    if a < b {
        lemma_days_before_year_mono(a, b - 1);
    }
}

pub proof fn lemma_days_before_month_mono(y: int, a: int, b: int)
    requires
        1 <= a <= b <= 13,
    ensures
        days_before_month(y, a) <= days_before_month(y, b),
    decreases b,
{
    if a < b {
        lemma_days_before_month_mono(y, a, b - 1);
    }
}

/// The twelve months of a year hold exactly that year's days.
pub proof fn lemma_days_before_month_full(y: int)
    ensures
        days_before_month(y, 13) == year_len(y),
{
    reveal_with_fuel(days_before_month, 14);
}

/// A date's day number stays inside a year's worth of days past the start of
/// its year.
pub proof fn lemma_day_index_in_year(d: Date)
    requires
        d.wf(),
    ensures
        days_before_year(d.year as int) <= d.day_index(),
        d.day_index() < days_before_year(d.year as int) + year_len(d.year as int),
{
    let y = d.year as int;
    let m = d.month as int;
    lemma_days_before_month_mono(y, 1, m);
    lemma_days_before_month_mono(y, m + 1, 13);
    lemma_days_before_month_full(y);
}

pub proof fn lemma_day_index_bounds(d: Date)
    requires
        d.wf(),
    ensures
        0 <= d.day_index() <= max_date().day_index(),
        max_date().day_index() + 1 == days_before_year(10000),
{
    let y = d.year as int;
    lemma_day_index_in_year(d);
    lemma_day_index_in_year(max_date());
    lemma_days_before_year_bounds(y);
    lemma_days_before_year_mono(y + 1, 10000);
    lemma_days_before_month_full(9999);
    lemma_days_before_month_mono(9999, 12, 13);
    assert(days_before_month(9999, 13) == days_before_month(9999, 12) + month_len(9999, 12));
    lemma_days_before_year_mono(9999, 10000);
}

/// A crude numeric ceiling on day numbers, handy for overflow reasoning.
pub proof fn lemma_day_index_upper(d: Date)
    requires
        d.wf(),
    ensures
        0 <= d.day_index() < 3660000,
{
    lemma_day_index_in_year(d);
    lemma_days_before_year_bounds(d.year as int);
    lemma_days_before_year_bounds(d.year as int + 1);
    lemma_days_before_year_mono(d.year as int, d.year as int + 1);
}

/// Two well-formed dates with one day number are one date.
pub proof fn lemma_day_index_injective(a: Date, b: Date)
    requires
        a.wf(),
        b.wf(),
        a.day_index() == b.day_index(),
    ensures
        a == b,
{
    lemma_day_index_in_year(a);
    lemma_day_index_in_year(b);
    if a.year < b.year {
        lemma_days_before_year_mono(a.year as int + 1, b.year as int);
    }
    if b.year < a.year {
        lemma_days_before_year_mono(b.year as int + 1, a.year as int);
    }
    let y = a.year as int;
    let am = a.month as int;
    let bm = b.month as int;
    if am < bm {
        lemma_days_before_month_mono(y, am + 1, bm);
    }
    if bm < am {
        lemma_days_before_month_mono(y, bm + 1, am);
    }
}

pub fn leap_year(y: i64) -> (r: bool)
    requires
        0 <= y,
    ensures
        r == is_leap_year(y as int),
{
    (y % 4 == 0 && y % 100 != 0) || y % 400 == 0
}

pub fn month_length(y: i64, m: u8) -> (r: u8)
    requires
        0 <= y,
    ensures
        r == month_len(y as int, m as int),
{
    if m == 2 {
        if leap_year(y) {
            29
        } else {
            28
        }
    } else if m == 4 || m == 6 || m == 9 || m == 11 {
        30
    } else {
        31
    }
}

fn year_length(y: i64) -> (r: u16)
    requires
        0 <= y,
    ensures
        r == year_len(y as int),
{
    if leap_year(y) {
        366
    } else {
        365
    }
}

/// Computes a date's day number.
pub fn date_to_days(d: &Date) -> (n: i64)
    requires
        d.wf(),
    ensures
        n == d.day_index(),
{
    let mut acc: i64 = 0;
    let mut y: i64 = 0;
    while y < d.year
        invariant
            0 <= y <= d.year,
            d.wf(),
            acc == days_before_year(y as int),
        decreases d.year - y,
    {
        proof {
            lemma_days_before_year_bounds(y as int);
        }
        acc = acc + year_length(y) as i64;
        y = y + 1;
    }
    proof {
        lemma_days_before_year_bounds(d.year as int);
    }
    let mut m: u8 = 1;
    while m < d.month
        invariant
            1 <= m <= d.month,
            d.wf(),
            acc == days_before_year(d.year as int) + days_before_month(d.year as int, m as int),
            days_before_year(d.year as int) <= 366 * 9999,
        decreases d.month - m,
    {
        proof {
            lemma_days_before_month_mono(d.year as int, 1, m as int + 1);
            lemma_days_before_month_mono(d.year as int, m as int + 1, 13);
            lemma_days_before_month_full(d.year as int);
        }
        acc = acc + month_length(d.year, m) as i64;
        m = m + 1;
    }
    proof {
        lemma_days_before_month_mono(d.year as int, d.month as int, 13);
        lemma_days_before_month_full(d.year as int);
    }
    acc + (d.day - 1) as i64
}

/// Recovers the date with a given day number.
pub fn days_to_date(n: i64) -> (d: Date)
    requires
        0 <= n <= max_date().day_index(),
    ensures
        d.wf(),
        d.day_index() == n,
{
    proof {
        lemma_day_index_bounds(max_date());
    }
    let mut y: i64 = 0;
    let mut rem: i64 = n;
    while rem >= year_length(y) as i64
        invariant
            0 <= y <= 9999,
            rem == n - days_before_year(y as int),
            0 <= rem,
            n < days_before_year(10000),
        decreases 10000 - y,
    {
        proof {
            if y as int + 1 > 9999 {
                lemma_days_before_year_mono(y as int + 1, 10000);
            }
        }
        rem = rem - year_length(y) as i64;
        y = y + 1;
    }
    let mut m: u8 = 1;
    while rem >= month_length(y, m) as i64
        invariant
            1 <= m <= 12,
            0 <= rem == n - days_before_year(y as int) - days_before_month(y as int, m as int),
            rem < year_len(y as int) - days_before_month(y as int, m as int),
            0 <= y <= 9999,
        decreases 12 - m,
    {
        proof {
            lemma_days_before_month_full(y as int);
        }
        rem = rem - month_length(y, m) as i64;
        m = m + 1;
    }
    let d = Date { year: y, month: m, day: (rem + 1) as u8 };
    d
}

/// Moves a date by a signed number of days.  None exactly when the result
/// would leave the representable dates: arithmetic saturates to an error
/// instead of wrapping.
pub fn offset_date(base: &Date, days: i64) -> (r: Option<Date>)
    requires
        base.wf(),
    ensures
        r matches Some(d) ==> d.wf() && d.day_index() == base.day_index() + days,
        r is None <==> !(0 <= base.day_index() + days <= max_date().day_index()),
{
    proof {
        lemma_day_index_upper(*base);
        lemma_day_index_upper(max_date());
    }
    let n = date_to_days(base);
    match n.checked_add(days) {
        None => None,
        Some(t) => {
            let md = Date { year: 9999, month: 12, day: 31 };
            let maxd = date_to_days(&md);
            if t < 0 || t > maxd {
                None
            } else {
                Some(days_to_date(t))
            }
        },
    }
}

} // verus!
