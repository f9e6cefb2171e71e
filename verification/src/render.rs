//! The Display Formatter: projects a stored `(starts_at, ends_at, all_day)`
//! triple into a chosen display zone.  Read-only; all-day events report an
//! inclusive end date by stepping one day back from the stored exclusive
//! bound.

use vstd::prelude::*;
use vstd::string::StringExecFns;
use crate::dates::{Date, offset_date};
use crate::errors::TimeError;
use crate::events::StoredEvent;
use crate::instant::CivilDateTime;
use crate::rfc3339::{date_text, hm_text, push_date, push_hm, rfc3339_secs};
use crate::timing::parse_utc;
use crate::zones::{local_civil_of, named_civil_of, zone_civil, zone_known, zone_reading_wf};

verus! {

/// The zone every endpoint of a listing is shown in: the system's own, or a
/// named IANA zone, validated once per display operation.
#[derive(Debug)]
pub enum DisplayZone {
    Local,
    Named(String),
}

impl DisplayZone {
    pub open spec fn wf(self) -> bool {
        self matches DisplayZone::Named(z) ==> zone_civil(z@, 0) is Some
    }
}

/// Resolves a display-zone argument: absent means the system zone; a name
/// must be in the zone database, else the unknown-timezone error names it.
pub fn parse_timezone(input: Option<&str>) -> (r: Result<DisplayZone, TimeError>)
    ensures
        r matches Ok(z) ==> z.wf(),
        input is None ==> (r matches Ok(z) && z is Local),
        input matches Some(v) ==> (match r {
            Ok(z) => (z matches DisplayZone::Named(name) && name@ == v@) && zone_civil(
                v@,
                0,
            ) is Some,
            Err(e) => (e matches TimeError::UnknownTimezone { literal } && literal@ == v@)
                && zone_civil(v@, 0) is None,
        }),
{
    match input {
        None => Ok(DisplayZone::Local),
        Some(v) => {
            if zone_known(v) {
                Ok(DisplayZone::Named(v.to_owned()))
            } else {
                Err(TimeError::UnknownTimezone { literal: v.to_owned() })
            }
        },
    }
}

/// `YYYY-MM-DD HH:MM {abbrev}`: one endpoint of a timed line.
pub open spec fn stamp_text(c: CivilDateTime, abbrev: Seq<char>) -> Seq<char> {
    date_text(c.date) + " "@ + hm_text(c.time) + " "@ + abbrev
}

/// `{start} -> {end} ({label})`: a timed event's line.
pub open spec fn timed_line(
    s: CivilDateTime,
    sa: Seq<char>,
    e: CivilDateTime,
    ea: Seq<char>,
    label: Seq<char>,
) -> Seq<char> {
    stamp_text(s, sa) + " -> "@ + stamp_text(e, ea) + " ("@ + label + ")"@
}

/// `{start_date} -> {end_date} (all-day, {label})`: an all-day event's line,
/// with the inclusive end date.
pub open spec fn all_day_line(sd: Date, ed: Date, label: Seq<char>) -> Seq<char> {
    date_text(sd) + " -> "@ + date_text(ed) + " (all-day, "@ + label + ")"@
}

/// What the zone database shows for an instant in a zone, as a civil value
/// and abbreviation.
pub open spec fn zone_stamp(z: Seq<char>, t: int, c: CivilDateTime, a: Seq<char>) -> bool {
    zone_civil(z, t) matches Some(p) && c.date.year == p.0 && c.date.month as int == p.1
        && c.date.day as int == p.2 && c.time.hour as int == p.3 && c.time.minute as int == p.4
        && c.time.second as int == p.5 && a == p.6
}

/// The date reported as an all-day end: one day before the stored exclusive
/// bound, or the bound itself where stepping back would underflow.
pub fn inclusive_end_date(ed: &Date) -> (r: Date)
    requires
        ed.wf(),
    ensures
        r.wf(),
        ed.day_index() > 0 ==> r.day_index() == ed.day_index() - 1,
        ed.day_index() == 0 ==> r == *ed,
{
    proof {
        crate::dates::lemma_day_index_bounds(*ed);
    }
    match offset_date(ed, -1) {
        Some(p) => p,
        None => *ed,
    }
}

/// Renders a timed line from its endpoint stamps.
pub fn render_timed(
    s: &CivilDateTime,
    sa: &str,
    e: &CivilDateTime,
    ea: &str,
    label: &str,
) -> (out: String)
    requires
        s.wf(),
        e.wf(),
    ensures
        out@ == timed_line(*s, sa@, *e, ea@, label@),
{
    let mut out = String::new();
    push_date(&mut out, &s.date);
    out.append(" ");
    push_hm(&mut out, &s.time);
    out.append(" ");
    out.append(sa);
    out.append(" -> ");
    push_date(&mut out, &e.date);
    out.append(" ");
    push_hm(&mut out, &e.time);
    out.append(" ");
    out.append(ea);
    out.append(" (");
    out.append(label);
    out.append(")");
    proof {
        assert(out@ =~= timed_line(*s, sa@, *e, ea@, label@));
    }
    out
}

/// Renders an all-day line from its dates.
pub fn render_all_day(sd: &Date, ed: &Date, label: &str) -> (out: String)
    requires
        sd.wf(),
        ed.wf(),
    ensures
        out@ == all_day_line(*sd, *ed, label@),
{
    let mut out = String::new();
    push_date(&mut out, sd);
    out.append(" -> ");
    push_date(&mut out, ed);
    out.append(" (all-day, ");
    out.append(label);
    out.append(")");
    proof {
        assert(out@ =~= all_day_line(*sd, *ed, label@));
    }
    out
}

/// What a correct rendering of a stored event in a zone looks like: for a
/// named zone, the civil stamps the zone database gives the two stored
/// instants, assembled into the timed line, or — all-day — their dates with
/// the inclusive end; for the system zone, a line of that shape over
/// well-formed civil values, labelled `local` in the all-day form.
pub open spec fn rendered_line_ok(
    zone: DisplayZone,
    sv: int,
    ev: int,
    all_day: bool,
    out: String,
) -> bool {
    match zone {
        DisplayZone::Named(z) => {
            if all_day {
                exists|sc: CivilDateTime, sa: Seq<char>, ec: CivilDateTime, ea: Seq<char>, incl:
                    Date|
                    #![trigger zone_stamp(z@, sv, sc, sa), zone_stamp(z@, ev, ec, ea), all_day_line(sc.date, incl, z@)]
                    {
                        &&& zone_stamp(z@, sv, sc, sa)
                        &&& zone_stamp(z@, ev, ec, ea)
                        &&& incl.wf()
                        &&& (ec.date.day_index() > 0 ==> incl.day_index() == ec.date.day_index()
                            - 1)
                        &&& (ec.date.day_index() == 0 ==> incl == ec.date)
                        &&& out@ == all_day_line(sc.date, incl, z@)
                    }
            } else {
                exists|sc: CivilDateTime, sa: Seq<char>, ec: CivilDateTime, ea: Seq<char>|
                    #![trigger zone_stamp(z@, sv, sc, sa), zone_stamp(z@, ev, ec, ea)]
                    {
                        &&& zone_stamp(z@, sv, sc, sa)
                        &&& zone_stamp(z@, ev, ec, ea)
                        &&& out@ == timed_line(sc, sa, ec, ea, z@)
                    }
            }
        },
        DisplayZone::Local => if all_day {
            exists|sd: Date, ed: Date|
                #![trigger all_day_line(sd, ed, "local"@)]
                sd.wf() && ed.wf() && out@ == all_day_line(sd, ed, "local"@)
        } else {
            exists|sc: CivilDateTime, sa: Seq<char>, ec: CivilDateTime, ea: Seq<char>, la: Seq<
                char,
            >|
                #![trigger timed_line(sc, sa, ec, ea, la)]
                sc.wf() && ec.wf() && out@ == timed_line(sc, sa, ec, ea, la)
        },
    }
}

/// Renders a stored event's timing in a display zone.  The stored
/// timestamps must parse, and a named zone must be known; an all-day event
/// is shown as dates with the inclusive end, a timed one as civil stamps
/// with the zone's labels.  For a named zone, success is owed whenever both
/// of the zone's readings are representable; near the edges of the year
/// 0000-9999 calendar a zone's reading can leave it, a date-overflow
/// failure this library's bounded calendar introduces.
pub fn format_event_timing(event: &StoredEvent, zone: &DisplayZone) -> (r: Result<
    String,
    TimeError,
>)
    requires
        zone.wf(),
    ensures
        rfc3339_secs(event.starts_at@) is None ==> (r matches Err(e) && (e matches
            TimeError::InvalidTimestamp { literal } && literal@ == event.starts_at@)),
        rfc3339_secs(event.starts_at@) is Some && rfc3339_secs(event.ends_at@) is None ==> (
        r matches Err(e) && (e matches TimeError::InvalidTimestamp { literal } && literal@
            == event.ends_at@)),
        r matches Ok(out) ==> (match (rfc3339_secs(event.starts_at@), rfc3339_secs(
            event.ends_at@,
        )) {
            (Some(sv), Some(ev)) => rendered_line_ok(*zone, sv, ev, event.all_day, out),
            _ => false,
        }),
        r matches Err(e) ==> (e matches TimeError::InvalidTimestamp { .. } || e matches
            TimeError::UnknownTimezone { .. } || e is DateOverflow),
        zone matches DisplayZone::Named(z) ==> (match (rfc3339_secs(event.starts_at@),
        rfc3339_secs(event.ends_at@)) {
            (Some(sv), Some(ev)) => zone_reading_wf(z@, sv) && zone_reading_wf(z@, ev) ==> r
                is Ok,
            _ => true,
        }),
{
    let start = match parse_utc(event.starts_at.as_str()) {
        Ok(t) => t,
        Err(e) => {
            return Err(e);
        },
    };
    let end = match parse_utc(event.ends_at.as_str()) {
        Ok(t) => t,
        Err(e) => {
            return Err(e);
        },
    };
    match zone {
        DisplayZone::Local => {
            let zs = match local_civil_of(&start) {
                Some(z) => z,
                None => {
                    return Err(TimeError::DateOverflow);
                },
            };
            let ze = match local_civil_of(&end) {
                Some(z) => z,
                None => {
                    return Err(TimeError::DateOverflow);
                },
            };
            if event.all_day {
                let incl = inclusive_end_date(&ze.civil.date);
                let out = render_all_day(&zs.civil.date, &incl, "local");
                proof {
                    assert(rendered_line_ok(
                        *zone,
                        start.secs as int,
                        end.secs as int,
                        event.all_day,
                        out,
                    ));
                }
                Ok(out)
            } else {
                let out = render_timed(
                    &zs.civil,
                    zs.abbrev.as_str(),
                    &ze.civil,
                    ze.abbrev.as_str(),
                    zs.offset_label.as_str(),
                );
                proof {
                    assert(rendered_line_ok(
                        *zone,
                        start.secs as int,
                        end.secs as int,
                        event.all_day,
                        out,
                    ));
                }
                Ok(out)
            }
        },
        DisplayZone::Named(zname) => {
            let zs = match named_civil_of(zname.as_str(), &start) {
                Ok(z) => z,
                Err(e) => {
                    return Err(e);
                },
            };
            let ze = match named_civil_of(zname.as_str(), &end) {
                Ok(z) => z,
                Err(e) => {
                    return Err(e);
                },
            };
            if event.all_day {
                let incl = inclusive_end_date(&ze.civil.date);
                let out = render_all_day(&zs.civil.date, &incl, zname.as_str());
                proof {
                    assert(zone_stamp(zname@, start.secs as int, zs.civil, zs.abbrev@));
                    assert(zone_stamp(zname@, end.secs as int, ze.civil, ze.abbrev@));
                    assert(out@ == all_day_line(zs.civil.date, incl, zname@));
                    assert(rendered_line_ok(
                        *zone,
                        start.secs as int,
                        end.secs as int,
                        event.all_day,
                        out,
                    ));
                }
                Ok(out)
            } else {
                let out = render_timed(
                    &zs.civil,
                    zs.abbrev.as_str(),
                    &ze.civil,
                    ze.abbrev.as_str(),
                    zname.as_str(),
                );
                proof {
                    assert(zone_stamp(zname@, start.secs as int, zs.civil, zs.abbrev@));
                    assert(zone_stamp(zname@, end.secs as int, ze.civil, ze.abbrev@));
                    assert(rendered_line_ok(
                        *zone,
                        start.secs as int,
                        end.secs as int,
                        event.all_day,
                        out,
                    ));
                }
                Ok(out)
            }
        },
    }
}

} // verus!
