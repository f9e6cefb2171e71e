//! The Range Builder: turns user-supplied timing fields into a canonical
//! `(starts_at, ends_at)` pair of UTC instants.  Two independent algorithms,
//! selected by the all-day flag; both enforce that every successfully built
//! timing ends strictly after it starts.

use vstd::prelude::*;
use crate::dates::{Date, max_date, offset_date};
use crate::errors::TimeError;
use crate::instant::{
    CivilDateTime, Instant, TimeOfDay, civil_to_instant, epoch_day_index, instant_hi,
    instant_hi_value, instant_lo, instant_lo_value, lemma_civil_secs_range,
    lemma_instant_bounds_numeric,
};
use crate::relative::{date_token_index, parse_date};
use crate::rfc3339::{parse_rfc3339, parse_strict_hm, parse_strict_hms, rfc3339_secs, strict_hm,
    strict_hms};
use crate::text::{chars_of, trim_chars, trim_of};
use crate::zones::{local_civil_of, resolve_in_local_zone};

verus! {

/// A canonical timing: both endpoints are UTC instants and the end lies
/// strictly after the start, for timed and all-day events alike.
#[derive(Clone, Copy, PartialEq, Eq, Structural, Debug)]
pub struct EventTiming {
    pub starts_at: Instant,
    pub ends_at: Instant,
}

impl EventTiming {
    pub open spec fn wf(self) -> bool {
        self.starts_at.wf() && self.ends_at.wf() && self.ends_at.secs > self.starts_at.secs
    }
}

/// The timing fields one create or edit operation can supply, reduced to
/// plain values, with the fallback context an edit carries.
#[derive(Debug)]
pub struct TimingArgs {
    pub start: Option<String>,
    pub date: Option<String>,
    pub time: Option<String>,
    pub end: Option<String>,
    pub duration: Option<String>,
    pub default_date: Date,
    pub existing_start: Option<Instant>,
    pub existing_end: Option<Instant>,
}

impl TimingArgs {
    pub open spec fn wf(self) -> bool {
        &&& self.default_date.wf()
        &&& self.existing_start matches Some(t) ==> t.wf()
        &&& self.existing_end matches Some(t) ==> t.wf()
    }

    /// Whether the operation supplied any timing field at all.
    pub fn has_explicit_input(&self) -> (r: bool)
        ensures
            r == (self.start is Some || self.date is Some || self.time is Some || self.end is Some
                || self.duration is Some),
    {
        self.start.is_some() || self.date.is_some() || self.time.is_some() || self.end.is_some()
            || self.duration.is_some()
    }
}

/// The midnight instant of the day with the given day number.
pub open spec fn day_start_secs(n: int) -> int {
    (n - epoch_day_index()) * 86400
}

pub uninterp spec fn human_duration_secs(s: Seq<char>) -> Option<u64>;

/// Relies on humantime's `parse_duration`: the grammar of human spans such
/// as `30m`, `2h`, `1h30m` — a function of the text alone.  Sub-second
/// parts are dropped: instants have second resolution.
#[verifier::external_body]
fn parse_human_duration(s: &str) -> (r: Option<u64>)
    ensures
        r == human_duration_secs(s@),
{
    match humantime::parse_duration(s) {
        Ok(d) => Some(d.as_secs()),
        Err(_) => None,
    }
}

/// The clock time a time-of-day argument denotes: trimmed, `HH:MM:SS` tried
/// first, then `HH:MM`.
pub open spec fn time_of_day_value(s: Seq<char>) -> Option<TimeOfDay> {
    if strict_hms(trim_of(s)) is Some {
        strict_hms(trim_of(s))
    } else {
        strict_hm(trim_of(s))
    }
}

/// Parses a clock time argument; fails with an error naming the literal.
pub fn parse_time_of_day(value: &str) -> (r: Result<TimeOfDay, TimeError>)
    ensures
        r matches Ok(t) ==> t.wf() && time_of_day_value(value@) == Some(t),
        r matches Err(e) ==> time_of_day_value(value@) is None && (e matches
            TimeError::InvalidTime { literal } && literal@ == value@),
{
    let cs = chars_of(value);
    let t = trim_chars(cs.as_slice());
    if let Some(tod) = parse_strict_hms(t.as_slice()) {
        return Ok(tod);
    }
    if let Some(tod) = parse_strict_hm(t.as_slice()) {
        return Ok(tod);
    }
    Err(TimeError::InvalidTime { literal: value.to_owned() })
}

/// Parses a user-supplied explicit instant, strictly RFC 3339.
pub fn parse_explicit_instant(value: &str) -> (r: Result<Instant, TimeError>)
    ensures
        r matches Ok(t) ==> t.wf() && rfc3339_secs(value@) == Some(t.secs as int),
        r matches Err(e) ==> rfc3339_secs(value@) is None && (e matches
            TimeError::ExpectedRfc3339 { literal } && literal@ == value@),
{
    let cs = chars_of(value);
    match parse_rfc3339(cs.as_slice()) {
        Some(t) => Ok(t),
        None => Err(TimeError::ExpectedRfc3339 { literal: value.to_owned() }),
    }
}

/// Parses a stored timestamp, strictly RFC 3339.
pub fn parse_utc(value: &str) -> (r: Result<Instant, TimeError>)
    ensures
        r matches Ok(t) ==> t.wf() && rfc3339_secs(value@) == Some(t.secs as int),
        r matches Err(e) ==> rfc3339_secs(value@) is None && (e matches
            TimeError::InvalidTimestamp { literal } && literal@ == value@),
{
    let cs = chars_of(value);
    match parse_rfc3339(cs.as_slice()) {
        Some(t) => Ok(t),
        None => Err(TimeError::InvalidTimestamp { literal: value.to_owned() }),
    }
}

fn opt_str(o: &Option<String>) -> (r: Option<&str>)
    ensures
        r matches Some(s) ==> o matches Some(x) && s@ == x@,
        r is None <==> o is None,
{
    match o {
        Some(x) => Some(x.as_str()),
        None => None,
    }
}

/// The literal a DST failure names: the supplied clock time, else the
/// inherited one.
pub open spec fn dst_literal(time: Option<&str>) -> Seq<char> {
    match time {
        Some(ts) => ts@,
        None => "existing"@,
    }
}

/// Builds the start instant from date/time components and the edit
/// fallback: the date comes from the explicit field, else the fallback's
/// local date, else the default; the clock time from the explicit field,
/// else the fallback's local clock time, else nowhere — and the combined
/// civil time is read in the system zone, failing on a DST gap or overlap
/// with an error naming the literal time.
pub fn build_start_from_components(
    date: Option<&str>,
    time: Option<&str>,
    default_date: Date,
    fallback_start: Option<Instant>,
) -> (r: Result<Instant, TimeError>)
    requires
        default_date.wf(),
        fallback_start matches Some(t) ==> t.wf(),
    ensures
        r matches Ok(i) ==> i.wf(),
        date is None && time is None ==> (match fallback_start {
            Some(f) => r == Ok::<Instant, TimeError>(f),
            None => r matches Err(e) && e is MissingTime,
        }),
        date matches Some(ds) ==> (date_token_index(ds@, default_date) is None ==> (r matches Err(
            e,
        ) && (e matches TimeError::InvalidDate { literal } && literal@ == ds@))),
        time matches Some(ts) ==> (((date matches Some(ds) ==> date_token_index(
            ds@,
            default_date,
        ) is Some) && time_of_day_value(ts@) is None) ==> (r matches Err(e) && ((e matches
            TimeError::InvalidTime { literal } && literal@ == ts@) || e is DateOverflow))),
        time is None && fallback_start is None ==> (date matches Some(ds) ==> (date_token_index(
            ds@,
            default_date,
        ) is Some ==> (r matches Err(e) && e is MissingTime))),
        r matches Err(e) ==> (e matches TimeError::InvalidDate { .. } || e matches
            TimeError::InvalidTime { .. } || e is MissingTime || (e matches TimeError::DstGap {
            literal: l,
        } && l@ == dst_literal(time)) || (e matches TimeError::DstAmbiguous {
            literal: l,
            first,
            second,
        } && l@ == dst_literal(time) && rfc3339_secs(first@) is Some && rfc3339_secs(
            second@,
        ) is Some) || e is DateOverflow),
        date matches Some(ds) ==> (time matches Some(ts) ==> (r matches Ok(i) ==> (match (
        date_token_index(ds@, default_date), time_of_day_value(ts@)) {
            (Some(n), Some(tod)) => ({
                let civ = day_start_secs(n) + tod.day_secs();
                civ - 86400 < i.secs < civ + 86400
            }),
            _ => false,
        }))),
        date is None && fallback_start is None ==> (time matches Some(ts) ==> (r matches Ok(i)
            ==> (match time_of_day_value(ts@) {
            Some(tod) => ({
                let civ = day_start_secs(default_date.day_index()) + tod.day_secs();
                civ - 86400 < i.secs < civ + 86400
            }),
            None => false,
        }))),
{
    if date.is_none() && time.is_none() {
        return match fallback_start {
            Some(f) => Ok(f),
            None => Err(TimeError::MissingTime),
        };
    }
    let fallback_civil: Option<CivilDateTime> = match &fallback_start {
        Some(f) => match local_civil_of(f) {
            Some(z) => Some(z.civil),
            None => None,
        },
        None => None,
    };
    let date_value: Date = match date {
        Some(ds) => match parse_date(ds, default_date) {
            Ok(d) => d,
            Err(e) => {
                return Err(e);
            },
        },
        None => match &fallback_civil {
            Some(c) => c.date,
            None => {
                if fallback_start.is_some() {
                    // the zone handed back an unrepresentable date
                    return Err(TimeError::DateOverflow);
                }
                default_date
            },
        },
    };
    let time_value: TimeOfDay = match time {
        Some(ts) => match parse_time_of_day(ts) {
            Ok(t) => t,
            Err(e) => {
                return Err(e);
            },
        },
        None => match &fallback_civil {
            Some(c) => c.time,
            None => {
                return Err(TimeError::MissingTime);
            },
        },
    };
    let civil = CivilDateTime { date: date_value, time: time_value };
    let literal: &str = match time {
        Some(ts) => ts,
        None => "existing",
    };
    resolve_in_local_zone(&civil, literal)
}

/// Builds a timed range.  The start comes from an explicit RFC 3339 instant
/// or from components; the end from an explicit instant, a duration, or the
/// default span; and the end must lie strictly after the start.
pub fn parse_timed_range(args: &TimingArgs, default_span_secs: i64) -> (r: Result<
    EventTiming,
    TimeError,
>)
    requires
        args.wf(),
        1 <= default_span_secs <= 320000000000,
    ensures
        r matches Ok(t) ==> t.wf(),
        args.start matches Some(s) ==> (match rfc3339_secs(s@) {
            Some(v) => r matches Ok(t) ==> t.starts_at.secs == v,
            None => r matches Err(e) && (e matches TimeError::ExpectedRfc3339 { literal }
                && literal@ == s@),
        }),
        args.start is None && args.date is None && args.time is None && args.existing_start
            is None ==> (r matches Err(e) && e is MissingStart),
        r matches Ok(t) ==> (match args.end {
            Some(es) => rfc3339_secs(es@) == Some(t.ends_at.secs as int),
            None => (match args.duration {
                Some(ds) => human_duration_secs(ds@) matches Some(n) && t.ends_at.secs
                    == t.starts_at.secs + n,
                None => t.ends_at.secs == t.starts_at.secs + default_span_secs,
            }),
        }),
        args.end matches Some(es) ==> (rfc3339_secs(es@) is None ==> r is Err),
        args.duration matches Some(ds) ==> ((args.end is None && human_duration_secs(
            ds@,
        ) is None) ==> r is Err),
        args.start matches Some(s) ==> (rfc3339_secs(s@) is Some ==> (args.end matches Some(es)
            ==> (rfc3339_secs(es@) is None ==> (r matches Err(e) && (e matches
            TimeError::ExpectedRfc3339 { literal } && literal@ == es@))))),
        args.start matches Some(s) ==> (rfc3339_secs(s@) is Some ==> (args.duration matches Some(
            ds,
        ) ==> ((args.end is None && human_duration_secs(ds@) is None) ==> (r matches Err(e) && (
        e matches TimeError::InvalidDuration { literal } && literal@ == ds@))))),
        args.start matches Some(s) ==> (args.end matches Some(es) ==> (({
            &&& rfc3339_secs(s@) matches Some(v)
            &&& rfc3339_secs(es@) matches Some(w)
            &&& w <= v
        }) ==> (r matches Err(e) && e is EndNotAfterStart))),
        args.start matches Some(s) ==> (args.end matches Some(es) ==> (({
            &&& rfc3339_secs(s@) matches Some(v)
            &&& rfc3339_secs(es@) matches Some(w)
            &&& w > v
        }) ==> r is Ok)),
        args.start matches Some(s) ==> (rfc3339_secs(s@) matches Some(v) ==> (args.end is None
            ==> (args.duration matches Some(ds) ==> (human_duration_secs(ds@) matches Some(n)
            ==> ((n > 0 && v + n <= instant_hi()) ==> r is Ok))))),
        args.start matches Some(s) ==> (rfc3339_secs(s@) matches Some(v) ==> ((args.end is None
            && args.duration is None && v + default_span_secs <= instant_hi()) ==> r is Ok)),
        args.start is None ==> (args.date matches Some(ds) ==> (args.time matches Some(ts) ==> (
        r matches Ok(t) ==> (match (date_token_index(ds@, args.default_date), time_of_day_value(
            ts@,
        )) {
            (Some(n), Some(tod)) => ({
                let civ = day_start_secs(n) + tod.day_secs();
                civ - 86400 < t.starts_at.secs < civ + 86400
            }),
            _ => false,
        })))),
{
    let start: Instant = match opt_str(&args.start) {
        Some(sv) => match parse_explicit_instant(sv) {
            Ok(i) => i,
            Err(e) => {
                return Err(e);
            },
        },
        None => {
            if args.date.is_some() || args.time.is_some() || args.existing_start.is_some() {
                match build_start_from_components(
                    opt_str(&args.date),
                    opt_str(&args.time),
                    args.default_date,
                    args.existing_start,
                ) {
                    Ok(i) => i,
                    Err(e) => {
                        return Err(e);
                    },
                }
            } else {
                return Err(TimeError::MissingStart);
            }
        },
    };
    proof {
        lemma_instant_bounds_numeric();
    }
    let end: Instant = match opt_str(&args.end) {
        Some(ev) => match parse_explicit_instant(ev) {
            Ok(i) => i,
            Err(e) => {
                return Err(e);
            },
        },
        None => match opt_str(&args.duration) {
            Some(dv) => match parse_human_duration(dv) {
                Some(n) => {
                    if n > 922337203685477807u64 {
                        return Err(TimeError::DurationTooLarge { literal: dv.to_owned() });
                    }
                    let hi = instant_hi_value();
                    match start.secs.checked_add(n as i64) {
                        Some(e) if e <= hi => Instant { secs: e },
                        _ => {
                            return Err(TimeError::EndOutOfRange);
                        },
                    }
                },
                None => {
                    return Err(TimeError::InvalidDuration { literal: dv.to_owned() });
                },
            },
            None => {
                let hi = instant_hi_value();
                match start.secs.checked_add(default_span_secs) {
                    Some(e) if e <= hi => Instant { secs: e },
                    _ => {
                        return Err(TimeError::DefaultEndOutOfRange);
                    },
                }
            },
        },
    };
    if end.secs <= start.secs {
        return Err(TimeError::EndNotAfterStart);
    }
    Ok(EventTiming { starts_at: start, ends_at: end })
}

/// The token the all-day start date comes from: the start argument wins
/// over the date argument.
pub open spec fn start_token(args: TimingArgs) -> Option<String> {
    if args.start is Some {
        args.start
    } else {
        args.date
    }
}

/// Whether the all-day start phase succeeds: its token resolves, or an
/// existing start stands in.
pub open spec fn all_day_start_ok(args: TimingArgs) -> bool {
    match start_token(args) {
        Some(v) => date_token_index(v@, args.default_date) is Some,
        None => args.existing_start is Some,
    }
}

/// Builds an all-day range in whole calendar days.  The start date comes
/// from the resolved start's date half; the end date is the day after the
/// user's inclusive end date (the stored end is exclusive), or the start
/// moved by the default span.  Each boundary date is read at its local
/// midnight in the system zone and converted to canonical form, and the end
/// must lie strictly after the start.  The token grammar and the span
/// arithmetic are pinned exactly, and each stored boundary lies within a
/// day — the zone's offset — of its date's UTC midnight; which offset the
/// zone applies rests with the host's zone rules.
pub fn parse_all_day_range(args: &TimingArgs, default_span_secs: i64) -> (r: Result<
    EventTiming,
    TimeError,
>)
    requires
        args.wf(),
        1 <= default_span_secs <= 320000000000,
    ensures
        r matches Ok(t) ==> t.wf(),
        start_token(*args) matches Some(v) ==> (date_token_index(v@, args.default_date) matches
            Some(n) ==> (r matches Ok(t) ==> day_start_secs(n) - 86400 < t.starts_at.secs
            < day_start_secs(n) + 86400)),
        args.end matches Some(ev) ==> (date_token_index(ev@, args.default_date) matches Some(m)
            ==> (r matches Ok(t) ==> day_start_secs(m + 1) - 86400 < t.ends_at.secs
            < day_start_secs(m + 1) + 86400)),
        args.start is None && args.date is None && args.existing_start is None ==> (r matches Err(
            e,
        ) && e is MissingAllDayStart),
        start_token(*args) matches Some(v) ==> (date_token_index(v@, args.default_date) is None
            ==> (r matches Err(e) && (e matches TimeError::InvalidDate { literal } && literal@
            == v@))),
        all_day_start_ok(*args) ==> (args.end matches Some(ev) ==> (date_token_index(
            ev@,
            args.default_date,
        ) is None ==> (r matches Err(e) && (e matches TimeError::InvalidDate { literal }
            && literal@ == ev@)))),
        all_day_start_ok(*args) ==> (args.end matches Some(ev) ==> (date_token_index(
            ev@,
            args.default_date,
        ) matches Some(m) ==> (m + 1 > max_date().day_index() ==> (r matches Err(e)
            && e is DateOverflow)))),
        r matches Ok(t) ==> (args.end is None ==> t.ends_at.secs == t.starts_at.secs
            + default_span_secs),
        r matches Err(e) ==> (e is MissingAllDayStart || e matches TimeError::InvalidDate { .. }
            || e is DateOverflow || e matches TimeError::DstGap { .. } || e matches
            TimeError::DstAmbiguous { .. } || e is EndNotAfterStart),
{
    let midnight = TimeOfDay { hour: 0, minute: 0, second: 0 };
    if args.start.is_none() && args.date.is_none() && args.existing_start.is_none() {
        return Err(TimeError::MissingAllDayStart);
    }
    let start_tok: Option<Date> = match opt_str(if args.start.is_some() {
        &args.start
    } else {
        &args.date
    }) {
        Some(v) => match parse_date(v, args.default_date) {
            Ok(d) => Some(d),
            Err(e) => {
                return Err(e);
            },
        },
        None => None,
    };
    let end_next: Option<Date> = match opt_str(&args.end) {
        Some(ev) => {
            let end_date = match parse_date(ev, args.default_date) {
                Ok(d) => d,
                Err(e) => {
                    return Err(e);
                },
            };
            match offset_date(&end_date, 1) {
                Some(next) => Some(next),
                None => {
                    return Err(TimeError::DateOverflow);
                },
            }
        },
        None => None,
    };
    let start_date: Date = match start_tok {
        Some(d) => d,
        None => match &args.existing_start {
            Some(ex) => match local_civil_of(ex) {
                Some(z) => z.civil.date,
                None => {
                    return Err(TimeError::DateOverflow);
                },
            },
            None => {
                return Err(TimeError::MissingAllDayStart);
            },
        },
    };
    let start = match resolve_in_local_zone(
        &CivilDateTime { date: start_date, time: midnight },
        "00:00",
    ) {
        Ok(i) => i,
        Err(e) => {
            return Err(e);
        },
    };
    proof {
        lemma_instant_bounds_numeric();
    }
    let end: Instant = match end_next {
        Some(next) => match resolve_in_local_zone(
            &CivilDateTime { date: next, time: midnight },
            "00:00",
        ) {
            Ok(i) => i,
            Err(e) => {
                return Err(e);
            },
        },
        None => {
            let hi = instant_hi_value();
            match start.secs.checked_add(default_span_secs) {
                Some(e) if e <= hi => Instant { secs: e },
                _ => {
                    return Err(TimeError::DateOverflow);
                },
            }
        },
    };
    if end.secs <= start.secs {
        return Err(TimeError::EndNotAfterStart);
    }
    Ok(EventTiming { starts_at: start, ends_at: end })
}

/// Law: where an exclusive all-day end is stored as the midnight one day
/// past the inclusive end date — as the import path stores UTC midnights —
/// any civil reading of that instant in UTC is the following day's midnight,
/// and stepping one day back, as rendering does, recovers the inclusive end
/// date.
pub proof fn lemma_all_day_inclusive_end(d: Date, c: CivilDateTime)
    requires
        d.wf(),
        c.wf(),
        c.instant_secs() == day_start_secs(d.day_index() + 1),
    ensures
        c.date.day_index() == d.day_index() + 1,
        c.time.day_secs() == 0,
{
    let m = d.day_index();
    let ci = c.date.day_index();
    assert(86400 * (ci - (m + 1)) == -c.time.day_secs());
    if ci != m + 1 {
        assert(ci > m + 1 ==> 86400 * (ci - (m + 1)) >= 86400) by (nonlinear_arith);
        assert(ci < m + 1 ==> 86400 * (ci - (m + 1)) <= -86400) by (nonlinear_arith);
        assert(false);
    }
}

/// The UTC bounds of one calendar day, in canonical stored form: the day's
/// midnight and the next day's midnight.
pub fn day_range_with_base(day: &str, base: Date) -> (r: Result<(String, String), TimeError>)
    requires
        base.wf(),
    ensures
        r matches Ok(p) ==> ({
            &&& date_token_index(day@, base) matches Some(n)
            &&& rfc3339_secs(p.0@) == Some(day_start_secs(n))
            &&& rfc3339_secs(p.1@) == Some(day_start_secs(n + 1))
            &&& p.0@ == crate::rfc3339::canonical_utc_text(day_start_secs(n))
            &&& p.1@ == crate::rfc3339::canonical_utc_text(day_start_secs(n + 1))
        }),
        date_token_index(day@, base) is None ==> (r matches Err(e) && (e matches
            TimeError::InvalidDate { literal } && literal@ == day@)),
        date_token_index(day@, base) matches Some(n) ==> (if n + 1 <= max_date().day_index() {
            r is Ok
        } else {
            r matches Err(e) && e is DateOverflow
        }),
{
    let midnight = TimeOfDay { hour: 0, minute: 0, second: 0 };
    let date = match parse_date(day, base) {
        Ok(d) => d,
        Err(e) => {
            return Err(e);
        },
    };
    proof {
        crate::dates::lemma_day_index_bounds(date);
    }
    let next = match offset_date(&date, 1) {
        Some(d) => d,
        None => {
            return Err(TimeError::DateOverflow);
        },
    };
    let start = civil_to_instant(&CivilDateTime { date, time: midnight });
    let end = civil_to_instant(&CivilDateTime { date: next, time: midnight });
    proof {
        lemma_civil_secs_range(CivilDateTime { date, time: midnight });
        lemma_civil_secs_range(CivilDateTime { date: next, time: midnight });
    }
    Ok(
        (
            crate::rfc3339::rfc3339_utc_string(&start),
            crate::rfc3339::rfc3339_utc_string(&end),
        ),
    )
}

/// The UTC bounds of the day a listing filter names, resolved against the
/// current date in the system zone.
pub fn day_range(day: &str) -> (r: Result<(String, String), TimeError>)
    ensures
        r matches Ok(p) ==> (exists|n: int|
            #![trigger day_start_secs(n)]
            rfc3339_secs(p.0@) == Some(day_start_secs(n)) && rfc3339_secs(p.1@) == Some(
                day_start_secs(n + 1),
            ) && p.0@ == crate::rfc3339::canonical_utc_text(day_start_secs(n)) && p.1@
                == crate::rfc3339::canonical_utc_text(day_start_secs(n + 1))),
        crate::rfc3339::strict_date(day@) matches Some(d) ==> (r matches Ok(p)
            ==> rfc3339_secs(p.0@) == Some(day_start_secs(d.day_index()))),
{
    match crate::zones::local_today() {
        Some(today) => day_range_with_base(day, today),
        None => Err(TimeError::DateOverflow),
    }
}

} // verus!
