//! Events as the store sees them, and the planning of create and edit
//! operations: reducing a command's timing fields to a canonical
//! `EventTiming` and the row values handed to the store.

use vstd::prelude::*;
use crate::errors::TimeError;
use crate::instant::Instant;
use crate::rfc3339::rfc3339_secs;
use crate::timing::{
    EventTiming, TimingArgs, human_duration_secs, parse_all_day_range, parse_timed_range,
    parse_utc,
};
use crate::zones::local_civil_of;

verus! {

/// A new event in canonical stored form: timestamps are RFC 3339 texts with
/// explicit `+00:00` offset.
#[derive(Debug)]
pub struct NewEvent {
    pub title: String,
    pub note: String,
    pub starts_at: String,
    pub ends_at: String,
    pub all_day: bool,
    pub tags: Vec<String>,
    pub uid: Option<String>,
}

/// A stored event row as the store exposes it.
#[derive(Debug)]
pub struct StoredEvent {
    pub id: i64,
    pub title: String,
    pub starts_at: String,
    pub ends_at: String,
    pub note: String,
    pub all_day: bool,
    pub uid: Option<String>,
    pub tags: Vec<String>,
}

/// The create command's fields, as plain values.
#[derive(Debug)]
pub struct AddCommand {
    pub title: String,
    pub start: Option<String>,
    pub end: Option<String>,
    pub note: Option<String>,
    pub tags: Vec<String>,
    pub all_day: bool,
    pub duration: Option<String>,
    pub date: Option<String>,
    pub time: Option<String>,
}

/// The delete command's fields.
#[derive(Debug)]
pub struct DeleteCommand {
    pub id: Option<i64>,
    pub title: Option<String>,
}

/// The listing command's fields.
#[derive(Debug)]
pub struct ListCommand {
    pub day: Option<String>,
    pub tz: Option<String>,
}

/// The move command's fields: a target selector and new timing fields.
#[derive(Debug)]
pub struct MoveCommand {
    pub id: Option<i64>,
    pub title: Option<String>,
    pub start: Option<String>,
    pub date: Option<String>,
    pub time: Option<String>,
    pub end: Option<String>,
    pub duration: Option<String>,
}

fn clone_opt(o: &Option<String>) -> (r: Option<String>)
    ensures
        r matches Some(x) ==> o matches Some(y) && x@ == y@,
        r is None <==> o is None,
{
    match o {
        Some(s) => Some(s.clone()),
        None => None,
    }
}

impl TimingArgs {
    /// Collects the timing fields of a create operation; the base date for
    /// relative tokens is the injected current date.
    pub fn from_add(cmd: &AddCommand, today: crate::dates::Date) -> (r: TimingArgs)
        requires
            today.wf(),
        ensures
            r.wf(),
            opt_view(r.start) == opt_view(cmd.start),
            opt_view(r.date) == opt_view(cmd.date),
            opt_view(r.time) == opt_view(cmd.time),
            opt_view(r.end) == opt_view(cmd.end),
            opt_view(r.duration) == opt_view(cmd.duration),
            r.default_date == today,
            r.existing_start is None,
            r.existing_end is None,
    {
        TimingArgs {
            start: clone_opt(&cmd.start),
            date: clone_opt(&cmd.date),
            time: clone_opt(&cmd.time),
            end: clone_opt(&cmd.end),
            duration: clone_opt(&cmd.duration),
            default_date: today,
            existing_start: None,
            existing_end: None,
        }
    }

    /// Collects the timing fields of an edit operation.  The stored
    /// timestamps become the fallback instants, and the base date for
    /// relative tokens is the existing start's date in the system zone —
    /// consulted only when some field can hold a date token, so edits that
    /// touch no date never depend on the zone here.  Fails with an error
    /// naming the literal when a stored timestamp does not parse.
    pub fn from_move(cmd: &MoveCommand, event: &StoredEvent) -> (r: Result<TimingArgs, TimeError>)
        ensures
            r matches Ok(a) ==> ({
                &&& a.wf()
                &&& opt_view(a.start) == opt_view(cmd.start)
                &&& opt_view(a.date) == opt_view(cmd.date)
                &&& opt_view(a.time) == opt_view(cmd.time)
                &&& opt_view(a.end) == opt_view(cmd.end)
                &&& opt_view(a.duration) == opt_view(cmd.duration)
                &&& a.existing_start matches Some(s) && rfc3339_secs(event.starts_at@) == Some(
                    s.secs as int,
                )
                &&& a.existing_end matches Some(e) && rfc3339_secs(event.ends_at@) == Some(
                    e.secs as int,
                )
            }),
            r matches Err(e) ==> (e matches TimeError::InvalidTimestamp { literal } && (literal@
                == event.starts_at@ || literal@ == event.ends_at@)) || e is DateOverflow,
            rfc3339_secs(event.starts_at@) is None || rfc3339_secs(event.ends_at@) is None ==> r
                is Err,
            rfc3339_secs(event.starts_at@) is Some && rfc3339_secs(event.ends_at@) is Some && !(
            cmd.date is Some || (event.all_day && (cmd.start is Some || cmd.end is Some))) ==> r
                is Ok,
    {
        let existing_start = match parse_utc(event.starts_at.as_str()) {
            Ok(t) => t,
            Err(e) => {
                return Err(e);
            },
        };
        let existing_end = match parse_utc(event.ends_at.as_str()) {
            Ok(t) => t,
            Err(e) => {
                return Err(e);
            },
        };
        let needs_base = cmd.date.is_some() || (event.all_day && (cmd.start.is_some()
            || cmd.end.is_some()));
        let default_date = if needs_base {
            match local_civil_of(&existing_start) {
                Some(z) => z.civil.date,
                None => {
                    return Err(TimeError::DateOverflow);
                },
            }
        } else {
            crate::instant::instant_to_civil(&existing_start).date
        };
        Ok(
            TimingArgs {
                start: clone_opt(&cmd.start),
                date: clone_opt(&cmd.date),
                time: clone_opt(&cmd.time),
                end: clone_opt(&cmd.end),
                duration: clone_opt(&cmd.duration),
                default_date,
                existing_start: Some(existing_start),
                existing_end: Some(existing_end),
            },
        )
    }
}

/// The view of an optional text.
pub open spec fn opt_view(o: Option<String>) -> Option<Seq<char>> {
    match o {
        Some(s) => Some(s@),
        None => None,
    }
}

/// Plans a create operation: rejects a duration combined with the all-day
/// flag outright, builds the canonical timing, and assembles the stored row.
/// Every stored timestamp parses back to its instant, and the end lies
/// strictly after the start.
pub fn build_new_event(cmd: AddCommand, today: crate::dates::Date) -> (r: Result<
    NewEvent,
    TimeError,
>)
    requires
        today.wf(),
    ensures
        cmd.all_day && cmd.duration is Some ==> (r matches Err(e) && e is DurationWithAllDay),
        r matches Ok(ev) ==> ({
            &&& ev.title@ == cmd.title@
            &&& ev.all_day == cmd.all_day
            &&& ev.uid is None
            &&& opt_view(cmd.note) matches Some(n) ==> ev.note@ == n
            &&& cmd.note is None ==> ev.note@ == Seq::<char>::empty()
            &&& exists|s: int, e: int|
                rfc3339_secs(ev.starts_at@) == Some(s) && rfc3339_secs(ev.ends_at@) == Some(e) && e
                    > s
        }),
        r matches Ok(ev) ==> (!cmd.all_day ==> (cmd.start matches Some(sv)
            ==> (rfc3339_secs(sv@) matches Some(v) ==> rfc3339_secs(ev.starts_at@) == Some(v)))),
        r matches Ok(ev) ==> (!cmd.all_day ==> (cmd.end matches Some(ev2) ==> rfc3339_secs(
            ev.ends_at@,
        ) == rfc3339_secs(ev2@))),
        r matches Ok(ev) ==> (!cmd.all_day && cmd.end is None ==> (cmd.duration matches Some(dv)
            ==> (human_duration_secs(dv@) matches Some(n) ==> ({
            &&& rfc3339_secs(ev.starts_at@) matches Some(s)
            &&& rfc3339_secs(ev.ends_at@) == Some(s + n)
        })))),
        r matches Ok(ev) ==> (!cmd.all_day && cmd.end is None && cmd.duration is None ==> ({
            &&& rfc3339_secs(ev.starts_at@) matches Some(s)
            &&& rfc3339_secs(ev.ends_at@) == Some(s + 1800)
        })),
        r matches Ok(ev) ==> ev.tags == cmd.tags,
        r matches Ok(ev) ==> (rfc3339_secs(ev.starts_at@) matches Some(s) && ev.starts_at@
            == crate::rfc3339::canonical_utc_text(s)),
        r matches Ok(ev) ==> (rfc3339_secs(ev.ends_at@) matches Some(e2) && ev.ends_at@
            == crate::rfc3339::canonical_utc_text(e2)),
        !cmd.all_day ==> (cmd.start matches Some(sv) ==> (cmd.end matches Some(ev2) ==> (({
            &&& rfc3339_secs(sv@) matches Some(v)
            &&& rfc3339_secs(ev2@) matches Some(w)
            &&& w > v
        }) ==> r is Ok))),
        !cmd.all_day ==> (cmd.start matches Some(sv) ==> (rfc3339_secs(sv@) matches Some(v) ==> (
        cmd.end is None ==> (cmd.duration matches Some(dv) ==> (human_duration_secs(
            dv@,
        ) matches Some(n) ==> ((n > 0 && v + n <= crate::instant::instant_hi()) ==> r is Ok)))))),
        !cmd.all_day ==> (cmd.start matches Some(sv) ==> (rfc3339_secs(sv@) matches Some(v) ==> ((
        cmd.end is None && cmd.duration is None && v + 1800 <= crate::instant::instant_hi())
            ==> r is Ok))),
{
    let timing_args = TimingArgs::from_add(&cmd, today);
    let timing: EventTiming = if cmd.all_day {
        if cmd.duration.is_some() {
            return Err(TimeError::DurationWithAllDay);
        }
        match parse_all_day_range(&timing_args, 86400) {
            Ok(t) => t,
            Err(e) => {
                return Err(e);
            },
        }
    } else {
        match parse_timed_range(&timing_args, 1800) {
            Ok(t) => t,
            Err(e) => {
                return Err(e);
            },
        }
    };
    let starts_at = crate::rfc3339::rfc3339_utc_string(&timing.starts_at);
    let ends_at = crate::rfc3339::rfc3339_utc_string(&timing.ends_at);
    let note = match &cmd.note {
        Some(n) => n.clone(),
        None => String::new(),
    };
    Ok(
        NewEvent {
            title: cmd.title,
            note,
            starts_at,
            ends_at,
            all_day: cmd.all_day,
            tags: cmd.tags,
            uid: None,
        },
    )
}

/// The default span a timed edit preserves: the previous span, floored to
/// one minute when it was not positive.
pub open spec fn timed_default_span(prev: int) -> int {
    if prev <= 0 {
        60
    } else {
        prev
    }
}

/// Plans an edit of an event's timing.  A duration supplied for an all-day
/// target is rejected outright, as at creation; an edit that supplies no
/// timing field fails; otherwise the previous span is preserved as the
/// default: when only the start moves, the new end keeps the old distance
/// (floored to one day for all-day events, one minute for timed ones, when
/// the old span was not positive).
pub fn plan_move(cmd: &MoveCommand, event: &StoredEvent) -> (r: Result<EventTiming, TimeError>)
    ensures
        r matches Ok(t) ==> t.wf(),
        event.all_day && cmd.duration is Some ==> (r matches Err(e) && e is DurationWithAllDay),
        cmd.start is None && cmd.date is None && cmd.time is None && cmd.end is None
            && cmd.duration is None ==> (r matches Err(e) && (e is NoTimingChange || e matches
            TimeError::InvalidTimestamp { .. } || e is DateOverflow)),
        cmd.start is None && cmd.date is None && cmd.time is None && cmd.end is None
            && cmd.duration is None ==> ((rfc3339_secs(event.starts_at@) is Some && rfc3339_secs(
            event.ends_at@,
        ) is Some) ==> (r matches Err(e) && e is NoTimingChange)),
        !event.all_day && cmd.date is None && cmd.end is None && cmd.duration is None ==> (
        cmd.start matches Some(sv) ==> (rfc3339_secs(sv@) matches Some(v) ==> (match (
        rfc3339_secs(event.starts_at@), rfc3339_secs(event.ends_at@)) {
            (Some(os), Some(oe)) => (v + timed_default_span(oe - os)
                <= crate::instant::instant_hi()) ==> r is Ok,
            _ => true,
        }))),
        r matches Ok(t) ==> ((cmd.end is None && cmd.duration is None) ==> (match (rfc3339_secs(
            event.starts_at@,
        ), rfc3339_secs(event.ends_at@)) {
            (Some(os), Some(oe)) => t.ends_at.secs - t.starts_at.secs == (if oe - os <= 0 {
                if event.all_day {
                    86400int
                } else {
                    60int
                }
            } else {
                oe - os
            }),
            _ => true,
        })),
        !event.all_day ==> (cmd.start matches Some(sv) ==> (cmd.end is None && cmd.duration
            is None ==> (({
            &&& rfc3339_secs(sv@) matches Some(v)
            &&& rfc3339_secs(event.starts_at@) matches Some(os)
            &&& rfc3339_secs(event.ends_at@) matches Some(oe)
            &&& oe > os
        }) ==> (r matches Ok(t) ==> ({
            &&& rfc3339_secs(sv@) matches Some(v) && t.starts_at.secs == v
            &&& rfc3339_secs(event.starts_at@) matches Some(os)
            &&& rfc3339_secs(event.ends_at@) matches Some(oe)
            &&& t.ends_at.secs - t.starts_at.secs == oe - os
        }))))),
{
    if event.all_day && cmd.duration.is_some() {
        return Err(TimeError::DurationWithAllDay);
    }
    let timing_args = match TimingArgs::from_move(cmd, event) {
        Ok(a) => a,
        Err(e) => {
            return Err(e);
        },
    };
    if !timing_args.has_explicit_input() {
        return Err(TimeError::NoTimingChange);
    }
    let existing_start = match timing_args.existing_start {
        Some(t) => t,
        None => {
            return Err(TimeError::MissingStart);
        },
    };
    let existing_end = match timing_args.existing_end {
        Some(t) => t,
        None => {
            return Err(TimeError::MissingStart);
        },
    };
    proof {
        crate::instant::lemma_instant_bounds_numeric();
    }
    let span = existing_end.secs - existing_start.secs;
    if event.all_day {
        let span = if span <= 0 {
            86400
        } else {
            span
        };
        parse_all_day_range(&timing_args, span)
    } else {
        let span = if span <= 0 {
            60
        } else {
            span
        };
        parse_timed_range(&timing_args, span)
    }
}

/// How a delete or move operation names its target.
#[derive(Debug)]
pub enum TargetSelector {
    ById(i64),
    ByTitle(String),
    Both(i64, String),
}

/// Decides how a lookup is keyed: by id, by title, or by id with a title to
/// fall back on.  Neither given is a failure.
pub fn parse_selector(id: Option<i64>, title: Option<&str>) -> (r: Result<
    TargetSelector,
    TimeError,
>)
    ensures
        id is None && title is None ==> (r matches Err(e) && e is MissingSelector),
        id matches Some(n) ==> (title is None ==> (r matches Ok(s) && s == TargetSelector::ById(
            n,
        ))),
        id is None ==> (title matches Some(t) ==> (r matches Ok(s) && (s matches
            TargetSelector::ByTitle(tt) && tt@ == t@))),
        id matches Some(n) ==> (title matches Some(t) ==> (r matches Ok(s) && (s matches
            TargetSelector::Both(nn, tt) && nn == n && tt@ == t@))),
{
    match (id, title) {
        (None, None) => Err(TimeError::MissingSelector),
        (Some(n), None) => Ok(TargetSelector::ById(n)),
        (None, Some(t)) => Ok(TargetSelector::ByTitle(t.to_owned())),
        (Some(n), Some(t)) => Ok(TargetSelector::Both(n, t.to_owned())),
    }
}

pub uninterp spec fn lower_of(s: Seq<char>) -> Seq<char>;

/// Relies on `str::to_lowercase`: the case-folded text depends on the
/// characters alone.
#[verifier::external_body]
fn lowercase(s: &str) -> (r: String)
    ensures
        r@ == lower_of(s@),
{
    s.to_lowercase()
}

/// Case-folds a tag list to lowercase and de-duplicates it, as the store
/// expects tags: the result holds exactly the folded forms of the inputs,
/// each once.
/// Whether the element at `i` of `r` is the case-folding of some input tag.
pub open spec fn has_source(r: Seq<String>, tags: Seq<String>, i: int) -> bool {
    exists|k: int| 0 <= k < tags.len() && r[i]@ == #[trigger] lower_of(tags[k]@)
}

/// Whether the folded form of the input tag at `k` appears in `r`.
pub open spec fn is_kept(r: Seq<String>, tags: Seq<String>, k: int) -> bool {
    exists|i: int| 0 <= i < r.len() && (#[trigger] r[i])@ == lower_of(tags[k]@)
}

pub fn normalize_tags(tags: &Vec<String>) -> (r: Vec<String>)
    ensures
        forall|i: int, j: int| 0 <= i < j < r@.len() ==> (#[trigger] r@[i])@ != (#[trigger] r@[j])@,
        forall|i: int| 0 <= i < r@.len() ==> #[trigger] has_source(r@, tags@, i),
        forall|k: int| 0 <= k < tags@.len() ==> #[trigger] is_kept(r@, tags@, k),
{
    let mut r: Vec<String> = Vec::new();
    let ghost mut w: Seq<int> = Seq::empty();
    let ghost mut src: Seq<int> = Seq::empty();
    let mut k: usize = 0;
    while k < tags.len()
        invariant
            k <= tags@.len(),
            w.len() == k,
            src.len() == r@.len(),
            forall|i: int, j: int|
                0 <= i < j < r@.len() ==> (#[trigger] r@[i])@ != (#[trigger] r@[j])@,
            forall|i: int|
                0 <= i < r@.len() ==> 0 <= #[trigger] src[i] < k && (r@[i])@ == lower_of(
                    tags@[src[i]]@,
                ),
            forall|k2: int|
                0 <= k2 < k ==> 0 <= #[trigger] w[k2] < r@.len() && (r@[w[k2]])@ == lower_of(
                    tags@[k2]@,
                ),
        decreases tags@.len() - k,
    {
        let low = lowercase(tags[k].as_str());
        let lc = crate::text::chars_of(low.as_str());
        let mut found: Option<usize> = None;
        let mut i: usize = 0;
        while i < r.len()
            invariant
                i <= r@.len(),
                lc@ == lower_of(tags@[k as int]@),
                low@ == lower_of(tags@[k as int]@),
                k < tags@.len(),
                found matches Some(j) ==> j < r@.len() && (r@[j as int])@ == lc@,
                found is None ==> forall|j: int| 0 <= j < i ==> (#[trigger] r@[j])@ != lc@,
            decreases r@.len() - i,
        {
            let cur = crate::text::chars_of(r[i].as_str());
            if crate::text::chars_eq(cur.as_slice(), lc.as_slice()) {
                found = Some(i);
            }
            i = i + 1;
        }
        let ghost prevr = r@;
        match found {
            Some(j) => {
                proof {
                    w = w.push(j as int);
                }
            },
            None => {
                r.push(low);
                proof {
                    w = w.push(r@.len() - 1);
                    src = src.push(k as int);
                    assert((r@[r@.len() - 1])@ == lower_of(tags@[k as int]@));
                    assert forall|i2: int, j2: int| 0 <= i2 < j2 < r@.len() implies (
                    #[trigger] r@[i2])@ != (#[trigger] r@[j2])@ by {
                        if j2 < prevr.len() {
                            assert(r@[i2] == prevr[i2] && r@[j2] == prevr[j2]);
                        } else {
                            assert(r@[i2] == prevr[i2]);
                            assert((prevr[i2])@ != lc@);
                        }
                    }
                }
            },
        }
        k = k + 1;
    }
    proof {
        assert forall|k2: int| 0 <= k2 < tags@.len() implies #[trigger] is_kept(
            r@,
            tags@,
            k2,
        ) by {
            let i = w[k2];
            assert(0 <= i < r@.len() && (r@[i])@ == lower_of(tags@[k2]@));
        }
        assert forall|i: int| 0 <= i < r@.len() implies #[trigger] has_source(r@, tags@, i) by {
            let k2 = src[i];
            assert(0 <= k2 < tags@.len() && (r@[i])@ == lower_of(tags@[k2]@));
        }
    }
    r
}

/// Picks the one stored event a title names.  None found and several found
/// are both failures, the latter asking for disambiguation by id.
pub fn pick_single_match(mut matches: Vec<StoredEvent>, title: &str) -> (r: Result<
    StoredEvent,
    TimeError,
>)
    ensures
        matches@.len() == 0 ==> (r matches Err(e) && (e matches TimeError::NotFoundByTitle {
            literal,
        } && literal@ == title@)),
        matches@.len() > 1 ==> (r matches Err(e) && (e matches TimeError::AmbiguousTitle { literal }
            && literal@ == title@)),
        matches@.len() == 1 ==> (r matches Ok(ev) && ev == matches@[0]),
{
    if matches.len() == 0 {
        Err(TimeError::NotFoundByTitle { literal: title.to_owned() })
    } else if matches.len() > 1 {
        Err(TimeError::AmbiguousTitle { literal: title.to_owned() })
    } else {
        Ok(matches.remove(0))
    }
}

} // verus!
