//! The boundary with the zone rules: the system's local zone and the named
//! IANA zones.  Whatever depends on the environment or on the compiled zone
//! database stands behind trusted wrappers; the verified logic takes their
//! outcomes as plain values and decides everything else.

use vstd::prelude::*;
use chrono::{Datelike, TimeZone, Timelike};
use core::str::FromStr;
use crate::dates::Date;
use crate::errors::TimeError;
use crate::instant::{CivilDateTime, Instant, TimeOfDay, instant_lo, instant_hi};
use crate::rfc3339::{date_wf_exec, rfc3339_secs, rfc3339_utc_string};

verus! {

/// How a zone resolves a civil time: one instant, two candidate instants
/// (a fall-back overlap), or none (a spring-forward gap).
#[derive(Clone, Copy, PartialEq, Eq, Structural, Debug)]
pub enum LocalResolve {
    Single(i64),
    Ambiguous(i64, i64),
    Gap,
}

/// Calendar fields as a zone conversion hands them over, with the zone's
/// rendering labels: the `%Z` abbreviation and the numeric offset.
pub struct RawStamp {
    pub year: i64,
    pub month: u8,
    pub day: u8,
    pub hour: u8,
    pub minute: u8,
    pub second: u8,
    pub abbrev: String,
    pub offset_label: String,
}

/// A zone's civil reading of an instant, validated.
pub struct ZonedCivil {
    pub civil: CivilDateTime,
    pub abbrev: String,
    pub offset_label: String,
}

pub uninterp spec fn zone_civil(zone: Seq<char>, t: int) -> Option<
    (int, int, int, int, int, int, Seq<char>),
>;

pub uninterp spec fn zone_single_instant(
    zone: Seq<char>,
    y: int,
    mo: int,
    d: int,
    h: int,
    mi: int,
    s: int,
) -> Option<int>;

/// Whether a zone's civil reading of an instant is a representable civil
/// value of this library's calendar.
pub open spec fn zone_reading_wf(zone: Seq<char>, t: int) -> bool {
    zone_civil(zone, t) matches Some(p) && 0 <= p.0 <= 9999 && 1 <= p.1 <= 12 && 1 <= p.2
        <= crate::dates::month_len(p.0, p.1) && 0 <= p.3 < 24 && 0 <= p.4 < 60 && 0 <= p.5 < 60
}

/// Relies on chrono's `Local::now`: the current calendar date and clock time
/// in the system zone, as raw fields.  The system clock decides; nothing is
/// promised of the outcome.
#[verifier::external_body]
fn local_now_raw() -> (r: RawStamp) {
    let now = chrono::Local::now();
    RawStamp {
        year: now.year() as i64,
        month: now.month() as u8,
        day: now.day() as u8,
        hour: now.hour() as u8,
        minute: now.minute() as u8,
        second: now.second() as u8,
        abbrev: now.format("%Z").to_string(),
        offset_label: now.offset().to_string(),
    }
}

/// Relies on chrono's `DateTime::from_timestamp` and `with_timezone(&Local)`:
/// the civil reading of an instant in the system zone, with its labels.  The
/// host's zone rules decide; nothing is promised of the outcome.
#[verifier::external_body]
fn local_civil_raw(secs: i64) -> (r: RawStamp)
    requires
        instant_lo() <= secs <= instant_hi(),
{
    let dt = chrono::DateTime::from_timestamp(secs, 0).unwrap().with_timezone(&chrono::Local);
    RawStamp {
        year: dt.year() as i64,
        month: dt.month() as u8,
        day: dt.day() as u8,
        hour: dt.hour() as u8,
        minute: dt.minute() as u8,
        second: dt.second() as u8,
        abbrev: dt.format("%Z").to_string(),
        offset_label: dt.offset().to_string(),
    }
}

/// Relies on chrono's `Local.from_local_datetime`: how the system zone reads
/// a civil time — once, twice, or not at all, with each candidate's instant.
/// Which branch comes back rests with the host's zone rules; but every
/// candidate instant is the civil value shifted by the zone's offset, and
/// chrono's `FixedOffset` (the offset type of `Local`) holds strictly less
/// than one day, so each candidate lies within a day of the civil value's
/// UTC reading.
#[verifier::external_body]
fn local_resolve_raw(c: &CivilDateTime) -> (r: LocalResolve)
    requires
        c.wf(),
    ensures
        r matches LocalResolve::Single(t) ==> c.instant_secs() - 86400 < t < c.instant_secs()
            + 86400,
        r matches LocalResolve::Ambiguous(a, b) ==> c.instant_secs() - 86400 < a
            < c.instant_secs() + 86400 && c.instant_secs() - 86400 < b < c.instant_secs()
            + 86400,
{
    let date = chrono::NaiveDate::from_ymd_opt(
        c.date.year as i32,
        c.date.month as u32,
        c.date.day as u32,
    ).unwrap();
    let naive = date.and_hms_opt(c.time.hour as u32, c.time.minute as u32, c.time.second as u32)
        .unwrap();
    match chrono::Local.from_local_datetime(&naive) {
        chrono::LocalResult::Single(dt) => LocalResolve::Single(dt.timestamp()),
        chrono::LocalResult::Ambiguous(a, b) => LocalResolve::Ambiguous(
            a.timestamp(),
            b.timestamp(),
        ),
        chrono::LocalResult::None => LocalResolve::Gap,
    }
}

/// Relies on chrono-tz's `Tz::from_str`: a name parses exactly when the
/// compiled IANA database holds the zone.
#[verifier::external_body]
pub(crate) fn zone_known(zone: &str) -> (r: bool)
    ensures
        r == (zone_civil(zone@, 0) is Some),
{
    chrono_tz::Tz::from_str(zone).is_ok()
}

/// Relies on chrono-tz's `Tz::from_str` and chrono's `with_timezone`: the
/// civil reading of an instant in a named IANA zone, with its `%Z`
/// abbreviation — a function of the name and the instant alone, defined
/// exactly for the names the database holds.
#[verifier::external_body]
fn zone_civil_raw(zone: &str, secs: i64) -> (r: Option<RawStamp>)
    requires
        instant_lo() <= secs <= instant_hi(),
    ensures
        (r is Some) == (zone_civil(zone@, secs as int) is Some),
        (r is Some) == (zone_civil(zone@, 0) is Some),
        r matches Some(st) ==> (zone_civil(zone@, secs as int) matches Some(p) && st.year == p.0
            && st.month as int == p.1 && st.day as int == p.2 && st.hour as int == p.3
            && st.minute as int == p.4 && st.second as int == p.5 && st.abbrev@ == p.6),
{
    let tz = chrono_tz::Tz::from_str(zone).ok()?;
    let dt = chrono::DateTime::from_timestamp(secs, 0).unwrap().with_timezone(&tz);
    Some(RawStamp {
        year: dt.year() as i64,
        month: dt.month() as u8,
        day: dt.day() as u8,
        hour: dt.hour() as u8,
        minute: dt.minute() as u8,
        second: dt.second() as u8,
        abbrev: dt.format("%Z").to_string(),
        offset_label: dt.offset().to_string(),
    })
}

/// Relies on chrono-tz's `from_local_datetime(..).single`: the instant a
/// named zone reads a civil time as, kept only when single-valued — a
/// function of the name and the civil fields alone.
#[verifier::external_body]
pub(crate) fn zone_single_of(zone: &str, c: &CivilDateTime) -> (r: Option<i64>)
    requires
        c.wf(),
    ensures
        r matches Some(t) ==> zone_single_instant(
            zone@,
            c.date.year as int,
            c.date.month as int,
            c.date.day as int,
            c.time.hour as int,
            c.time.minute as int,
            c.time.second as int,
        ) == Some(t as int),
        r is None ==> zone_single_instant(
            zone@,
            c.date.year as int,
            c.date.month as int,
            c.date.day as int,
            c.time.hour as int,
            c.time.minute as int,
            c.time.second as int,
        ) is None,
{
    let tz = chrono_tz::Tz::from_str(zone).ok()?;
    let date = chrono::NaiveDate::from_ymd_opt(
        c.date.year as i32,
        c.date.month as u32,
        c.date.day as u32,
    ).unwrap();
    let naive = date.and_hms_opt(c.time.hour as u32, c.time.minute as u32, c.time.second as u32)
        .unwrap();
    tz.from_local_datetime(&naive).single().map(|dt| dt.timestamp())
}

/// Validates raw calendar fields into a civil value; succeeds exactly when
/// the fields read as one.
fn validate_raw(raw: &RawStamp) -> (r: Option<CivilDateTime>)
    ensures
        r matches Some(c) ==> c.wf() && c.date.year == raw.year && c.date.month == raw.month
            && c.date.day == raw.day && c.time.hour == raw.hour && c.time.minute == raw.minute
            && c.time.second == raw.second,
        r is None ==> !(0 <= raw.year <= 9999 && 1 <= raw.month <= 12 && 1 <= raw.day
            <= crate::dates::month_len(raw.year as int, raw.month as int) && raw.hour < 24
            && raw.minute < 60 && raw.second < 60),
{
    let d = Date { year: raw.year, month: raw.month, day: raw.day };
    let t = TimeOfDay { hour: raw.hour, minute: raw.minute, second: raw.second };
    if date_wf_exec(&d) && t.hour < 24 && t.minute < 60 && t.second < 60 {
        Some(CivilDateTime { date: d, time: t })
    } else {
        None
    }
}

/// The current date in the system zone, when the clock reads as a
/// representable date.
pub fn local_today() -> (r: Option<Date>)
    ensures
        r matches Some(d) ==> d.wf(),
{
    let raw = local_now_raw();
    let d = Date { year: raw.year, month: raw.month, day: raw.day };
    if date_wf_exec(&d) {
        Some(d)
    } else {
        None
    }
}

/// The civil reading of an instant in the system zone, when the zone's
/// answer reads as a representable civil value.
pub fn local_civil_of(t: &Instant) -> (r: Option<ZonedCivil>)
    requires
        t.wf(),
    ensures
        r matches Some(z) ==> z.civil.wf(),
{
    let raw = local_civil_raw(t.secs);
    match validate_raw(&raw) {
        Some(c) => Some(ZonedCivil { civil: c, abbrev: raw.abbrev, offset_label: raw.offset_label }),
        None => None,
    }
}

/// The civil reading of an instant in a named zone.  Fails with the unknown
/// timezone error, naming the literal, exactly when the database lacks the
/// name; succeeds exactly when the database's reading is representable, and
/// then carries that reading.
pub fn named_civil_of(zone: &str, t: &Instant) -> (r: Result<ZonedCivil, TimeError>)
    requires
        t.wf(),
    ensures
        r matches Ok(z) ==> z.civil.wf() && (zone_civil(zone@, t.secs as int) matches Some(p)
            && z.civil.date.year == p.0 && z.civil.date.month as int == p.1
            && z.civil.date.day as int == p.2 && z.civil.time.hour as int == p.3
            && z.civil.time.minute as int == p.4 && z.civil.time.second as int == p.5
            && z.abbrev@ == p.6),
        r matches Err(e) ==> (e matches TimeError::UnknownTimezone { literal } && literal@
            == zone@ && zone_civil(zone@, 0) is None) || (e is DateOverflow && zone_civil(
            zone@,
            0,
        ) is Some),
        zone_civil(zone@, 0) is None ==> r is Err,
        zone_reading_wf(zone@, t.secs as int) ==> r is Ok,
{
    match zone_civil_raw(zone, t.secs) {
        None => Err(TimeError::UnknownTimezone { literal: zone.to_owned() }),
        Some(raw) => match validate_raw(&raw) {
            Some(c) => Ok(
                ZonedCivil { civil: c, abbrev: raw.abbrev, offset_label: raw.offset_label },
            ),
            None => Err(TimeError::DateOverflow),
        },
    }
}

/// Turns a zone's resolution of a civil time into the canonical outcome: the
/// unique instant, or the DST error that names the literal time — and, for
/// an overlap, both candidate instants in stored form.
pub fn classify_local_resolution(res: LocalResolve, literal: &str) -> (r: Result<
    Instant,
    TimeError,
>)
    ensures
        r matches Ok(i) ==> i.wf() && res == LocalResolve::Single(i.secs),
        res matches LocalResolve::Single(t) ==> (if instant_lo() <= t <= instant_hi() {
            r matches Ok(i) && i.secs == t
        } else {
            r matches Err(e) && e is DateOverflow
        }),
        res matches LocalResolve::Ambiguous(a, b) ==> (r matches Err(e) && ((e matches
            TimeError::DstAmbiguous { literal: l, first, second } && l@ == literal@
            && rfc3339_secs(first@) == Some(a as int) && rfc3339_secs(second@) == Some(
            b as int,
        )) || (e is DateOverflow && !(instant_lo() <= a <= instant_hi() && instant_lo() <= b
            <= instant_hi())))),
        res is Gap ==> (r matches Err(e) && (e matches TimeError::DstGap { literal: l } && l@
            == literal@)),
{
    let lo = crate::instant::instant_lo_value();
    let hi = crate::instant::instant_hi_value();
    match res {
        LocalResolve::Single(t) => {
            if lo <= t && t <= hi {
                Ok(Instant { secs: t })
            } else {
                Err(TimeError::DateOverflow)
            }
        },
        LocalResolve::Ambiguous(a, b) => {
            if lo <= a && a <= hi && lo <= b && b <= hi {
                let first = rfc3339_utc_string(&Instant { secs: a });
                let second = rfc3339_utc_string(&Instant { secs: b });
                Err(TimeError::DstAmbiguous { literal: literal.to_owned(), first, second })
            } else {
                Err(TimeError::DateOverflow)
            }
        },
        LocalResolve::Gap => Err(TimeError::DstGap { literal: literal.to_owned() }),
    }
}

/// Reads a civil time in the system zone and classifies the outcome.  Which
/// branch is taken rests with the host's zone rules; what each branch hands
/// back is pinned down by `classify_local_resolution`.
pub fn resolve_in_local_zone(c: &CivilDateTime, literal: &str) -> (r: Result<Instant, TimeError>)
    requires
        c.wf(),
    ensures
        r matches Ok(i) ==> i.wf() && c.instant_secs() - 86400 < i.secs < c.instant_secs()
            + 86400,
        r matches Err(e) ==> (e matches TimeError::DstAmbiguous { literal: l, first, second }
            && l@ == literal@ && rfc3339_secs(first@) is Some && rfc3339_secs(second@) is Some)
            || (e matches TimeError::DstGap { literal: l } && l@ == literal@) || (
        e is DateOverflow),
{
    let res = local_resolve_raw(c);
    classify_local_resolution(res, literal)
}

} // verus!
