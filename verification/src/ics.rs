//! Import datetime extraction: reads calendar properties, already split into
//! plain names, values and parameters, and reduces them to canonical stored
//! events.  The datetime rules are deliberately simple: an 8-digit value is
//! an all-day boundary, a `Z`-suffixed value is naive time reinterpreted as
//! UTC, a `TZID` names a zone the civil time must be single-valued in, and a
//! bare value is taken as already UTC.

use vstd::prelude::*;
use crate::dates::Date;
use crate::errors::TimeError;
use crate::events::NewEvent;
use crate::rfc3339::rfc3339_secs;
use crate::instant::{
    CivilDateTime, Instant, TimeOfDay, civil_to_instant, instant_hi, instant_hi_value, instant_lo,
    instant_lo_value, lemma_civil_secs_range,
};
use crate::text::{
    chars_eq, chars_of, digit, digit_val, is_digit, lower_seq, push_char, to_lower_chars,
};
use crate::zones::{zone_known, zone_single_instant};

verus! {

/// One calendar property: a name, an optional value, and parameters, each a
/// key with its values.
#[derive(Debug)]
pub struct IcsProperty {
    pub name: String,
    pub value: Option<String>,
    pub params: Vec<(String, Vec<String>)>,
}

/// ASCII case-insensitive equality.
pub open spec fn ci_eq(a: Seq<char>, b: Seq<char>) -> bool {
    lower_seq(a) == lower_seq(b)
}

/// Decides ASCII case-insensitive equality.
pub fn eq_ignore_case(a: &str, b: &str) -> (r: bool)
    ensures
        r == ci_eq(a@, b@),
{
    let la = to_lower_chars(chars_of(a).as_slice());
    let lb = to_lower_chars(chars_of(b).as_slice());
    chars_eq(la.as_slice(), lb.as_slice())
}

/// The index of the first property whose name matches, ASCII
/// case-insensitively.
pub open spec fn first_prop(props: Seq<IcsProperty>, key: Seq<char>) -> Option<int>
    decreases props.len(),
{
    if props.len() == 0 {
        None
    } else if ci_eq(props[0].name@, key) {
        Some(0)
    } else {
        match first_prop(props.drop_first(), key) {
            Some(i) => Some(i + 1),
            None => None,
        }
    }
}

/// Finds the first property with the (case-insensitively) matching name.
pub fn get_property(props: &Vec<IcsProperty>, name: &str) -> (r: Option<usize>)
    ensures
        r matches Some(i) ==> first_prop(props@, name@) == Some(i as int) && i < props@.len()
            && ci_eq(props@[i as int].name@, name@),
        r is None ==> first_prop(props@, name@) is None,
{
    let mut i: usize = 0;
    proof {
        assert(props@.skip(0) =~= props@);
    }
    while i < props.len()
        invariant
            i <= props@.len(),
            first_prop(props@, name@) == (match first_prop(props@.skip(i as int), name@) {
                Some(k) => Some(i + k),
                None => None,
            }),
        decreases props@.len() - i,
    {
        proof {
            assert(props@.skip(i as int).drop_first() =~= props@.skip(i as int + 1));
            assert(props@.skip(i as int)[0] == props@[i as int]);
        }
        if eq_ignore_case(props[i].name.as_str(), name) {
            return Some(i);
        }
        i = i + 1;
    }
    None
}

/// The first value of the first parameter whose key matches, as the search
/// stops at the first matching key even when it carries no values.
pub open spec fn param_first_value(
    params: Seq<(String, Vec<String>)>,
    key: Seq<char>,
) -> Option<Seq<char>>
    decreases params.len(),
{
    if params.len() == 0 {
        None
    } else if ci_eq(params[0].0@, key) {
        if params[0].1@.len() > 0 {
            Some(params[0].1@[0]@)
        } else {
            None
        }
    } else {
        param_first_value(params.drop_first(), key)
    }
}

/// Looks up a property parameter's first value; mirrors `param_first_value`.
pub fn property_param(prop: &IcsProperty, key: &str) -> (r: Option<String>)
    ensures
        r matches Some(v) ==> param_first_value(prop.params@, key@) == Some(v@),
        r is None ==> param_first_value(prop.params@, key@) is None,
{
    let mut i: usize = 0;
    proof {
        assert(prop.params@.skip(0) =~= prop.params@);
    }
    while i < prop.params.len()
        invariant
            i <= prop.params@.len(),
            param_first_value(prop.params@, key@) == param_first_value(
                prop.params@.skip(i as int),
                key@,
            ),
        decreases prop.params@.len() - i,
    {
        proof {
            assert(prop.params@.skip(i as int).drop_first() =~= prop.params@.skip(i as int + 1));
        }
        if eq_ignore_case(prop.params[i].0.as_str(), key) {
            let vals = &prop.params[i].1;
            if vals.len() > 0 {
                return Some(vals[0].clone());
            }
            return None;
        }
        i = i + 1;
    }
    None
}

/// Whether a property marks an all-day boundary: an explicit `VALUE=DATE`
/// marker, else a value of exactly eight characters.
pub open spec fn spec_is_all_day(p: IcsProperty) -> bool {
    match param_first_value(p.params@, seq!['V', 'A', 'L', 'U', 'E']) {
        Some(v) => ci_eq(v, seq!['D', 'A', 'T', 'E']),
        None => match p.value {
            Some(val) => val@.len() == 8,
            None => false,
        },
    }
}

/// Decides whether a property marks an all-day boundary.
pub fn is_all_day(prop: &IcsProperty) -> (r: bool)
    ensures
        r == spec_is_all_day(*prop),
{
    proof {
        reveal_strlit("VALUE");
        reveal_strlit("DATE");
        assert("VALUE"@ =~= seq!['V', 'A', 'L', 'U', 'E']);
        assert("DATE"@ =~= seq!['D', 'A', 'T', 'E']);
    }
    match property_param(prop, "VALUE") {
        Some(v) => eq_ignore_case(v.as_str(), "DATE"),
        None => match &prop.value {
            Some(val) => val.as_str().unicode_len() == 8,
            None => false,
        },
    }
}

/// The date an 8-digit `YYYYMMDD` value denotes.
pub open spec fn basic_date(s: Seq<char>) -> Option<Date> {
    if s.len() == 8 && (forall|i: int| 0 <= i < 8 ==> is_digit(s[i])) {
        let y = digit_val(s[0]) * 1000 + digit_val(s[1]) * 100 + digit_val(s[2]) * 10 + digit_val(
            s[3],
        );
        let m = digit_val(s[4]) * 10 + digit_val(s[5]);
        let d = digit_val(s[6]) * 10 + digit_val(s[7]);
        let date = Date { year: y as i64, month: m as u8, day: d as u8 };
        if date.wf() {
            Some(date)
        } else {
            None
        }
    } else {
        None
    }
}

/// The civil value a 15-character `YYYYMMDDTHHMMSS` text denotes.
pub open spec fn basic_datetime(s: Seq<char>) -> Option<CivilDateTime> {
    if s.len() == 15 && s[8] == 'T' && (forall|i: int| 0 <= i < 8 ==> is_digit(s[i])) && (forall|
        i: int,
    | 9 <= i < 15 ==> is_digit(s[i])) {
        match basic_date(s.subrange(0, 8)) {
            Some(d) => {
                let h = digit_val(s[9]) * 10 + digit_val(s[10]);
                let mi = digit_val(s[11]) * 10 + digit_val(s[12]);
                let sec = digit_val(s[13]) * 10 + digit_val(s[14]);
                let t = TimeOfDay { hour: h as u8, minute: mi as u8, second: sec as u8 };
                if t.wf() {
                    Some(CivilDateTime { date: d, time: t })
                } else {
                    None
                }
            },
            None => None,
        }
    } else {
        None
    }
}

/// Parses an 8-digit date; mirrors `basic_date`.
pub fn parse_basic_date(v: &[char]) -> (r: Option<Date>)
    ensures
        r == basic_date(v@),
{
    if v.len() != 8 {
        return None;
    }
    let mut i: usize = 0;
    while i < 8
        invariant
            i <= 8,
            v@.len() == 8,
            forall|j: int| 0 <= j < i ==> is_digit(v@[j]),
        decreases 8 - i,
    {
        if !digit(*vstd::slice::slice_index_get(v, i)) {
            return None;
        }
        i = i + 1;
    }
    let y = dv(*vstd::slice::slice_index_get(v, 0)) * 1000 + dv(
        *vstd::slice::slice_index_get(v, 1),
    ) * 100 + dv(*vstd::slice::slice_index_get(v, 2)) * 10 + dv(*vstd::slice::slice_index_get(v, 3));
    let m = dv(*vstd::slice::slice_index_get(v, 4)) * 10 + dv(*vstd::slice::slice_index_get(v, 5));
    let d = dv(*vstd::slice::slice_index_get(v, 6)) * 10 + dv(*vstd::slice::slice_index_get(v, 7));
    let date = Date { year: y, month: m as u8, day: d as u8 };
    if crate::rfc3339::date_wf_exec(&date) {
        Some(date)
    } else {
        None
    }
}

/// Parses a 15-character datetime; mirrors `basic_datetime`.
pub fn parse_basic_datetime(v: &[char]) -> (r: Option<CivilDateTime>)
    ensures
        r == basic_datetime(v@),
{
    if v.len() != 15 {
        return None;
    }
    if *vstd::slice::slice_index_get(v, 8) != 'T' {
        return None;
    }
    let mut i: usize = 9;
    while i < 15
        invariant
            9 <= i <= 15,
            v@.len() == 15,
            forall|j: int| 9 <= j < i ==> is_digit(v@[j]),
        decreases 15 - i,
    {
        if !digit(*vstd::slice::slice_index_get(v, i)) {
            return None;
        }
        i = i + 1;
    }
    let date = match parse_basic_date(vstd::slice::slice_subrange(v, 0, 8)) {
        Some(d) => d,
        None => {
            proof {
                if forall|j: int| 0 <= j < 8 ==> is_digit(v@[j]) {
                    assert(basic_date(v@.subrange(0, 8)) is None);
                }
            }
            return None;
        },
    };
    let h = dv(*vstd::slice::slice_index_get(v, 9)) * 10 + dv(*vstd::slice::slice_index_get(v, 10));
    let mi = dv(*vstd::slice::slice_index_get(v, 11)) * 10 + dv(
        *vstd::slice::slice_index_get(v, 12),
    );
    let sec = dv(*vstd::slice::slice_index_get(v, 13)) * 10 + dv(
        *vstd::slice::slice_index_get(v, 14),
    );
    let t = TimeOfDay { hour: h as u8, minute: mi as u8, second: sec as u8 };
    if t.hour < 24 && t.minute < 60 && t.second < 60 {
        Some(CivilDateTime { date, time: t })
    } else {
        None
    }
}

fn dv(c: char) -> (r: i64)
    requires
        is_digit(c),
    ensures
        r == digit_val(c),
        0 <= r <= 9,
{
    (c as u32 - '0' as u32) as i64
}

/// Whether a value carries the literal UTC marker.
pub open spec fn ends_z(s: Seq<char>) -> bool {
    s.len() > 0 && s.last() == 'Z'
}

/// A computed instant, kept only inside the representable range.
pub open spec fn in_range_opt(t: int) -> Option<int> {
    if instant_lo() <= t <= instant_hi() {
        Some(t)
    } else {
        None
    }
}

pub open spec fn tzid_key() -> Seq<char> {
    seq!['T', 'Z', 'I', 'D']
}

pub open spec fn dtstart_key() -> Seq<char> {
    seq!['D', 'T', 'S', 'T', 'A', 'R', 'T']
}

pub open spec fn dtend_key() -> Seq<char> {
    seq!['D', 'T', 'E', 'N', 'D']
}

/// The view of an optional borrowed text.
pub open spec fn opt_ref_view(o: Option<&str>) -> Option<Seq<char>> {
    match o {
        Some(z) => Some(z@),
        None => None,
    }
}

/// The instant an imported datetime value denotes under its zone reference:
/// a `Z` suffix wins and means naive-as-UTC; a zone reference means that
/// zone's single-valued reading; a bare value is taken as already UTC.
pub open spec fn datetime_instant(s: Seq<char>, tzid: Option<Seq<char>>) -> Option<int> {
    if ends_z(s) {
        match basic_datetime(s.drop_last()) {
            Some(c) => in_range_opt(c.instant_secs()),
            None => None,
        }
    } else {
        match tzid {
            Some(z) => match basic_datetime(s) {
                Some(c) => if crate::zones::zone_civil(z, 0) is Some {
                    match zone_single_instant(
                        z,
                        c.date.year as int,
                        c.date.month as int,
                        c.date.day as int,
                        c.time.hour as int,
                        c.time.minute as int,
                        c.time.second as int,
                    ) {
                        Some(t) => in_range_opt(t),
                        None => None,
                    }
                } else {
                    None
                },
                None => None,
            },
            None => match basic_datetime(s) {
                Some(c) => in_range_opt(c.instant_secs()),
                None => None,
            },
        }
    }
}

/// The instant a start boundary denotes: its date's UTC midnight when the
/// property is all-day, else its datetime value under its zone reference.
pub open spec fn dtstart_instant(p: IcsProperty) -> Option<int> {
    match p.value {
        None => None,
        Some(val) => if spec_is_all_day(p) {
            match basic_date(val@) {
                Some(d) => in_range_opt(crate::timing::day_start_secs(d.day_index())),
                None => None,
            }
        } else {
            datetime_instant(val@, param_first_value(p.params@, tzid_key()))
        },
    }
}

/// The instant an end boundary denotes: the explicit end when present (as a
/// date's UTC midnight when the event or the property is all-day, else as a
/// datetime), else the start moved by one day or one hour.
pub open spec fn dtend_instant(props: Seq<IcsProperty>, all_day: bool, start: int) -> Option<
    int,
> {
    match first_prop(props, dtend_key()) {
        None => in_range_opt(
            start + (if all_day {
                86400int
            } else {
                3600int
            }),
        ),
        Some(i) => match props[i].value {
            None => None,
            Some(val) => if all_day || spec_is_all_day(props[i]) {
                match basic_date(val@) {
                    Some(d) => in_range_opt(crate::timing::day_start_secs(d.day_index())),
                    None => None,
                }
            } else {
                datetime_instant(val@, param_first_value(props[i].params@, tzid_key()))
            },
        },
    }
}

/// Parses an imported date value, failing with an error naming the literal.
pub fn parse_date_value(value: &str) -> (r: Result<Date, TimeError>)
    ensures
        r matches Ok(d) ==> basic_date(value@) == Some(d) && d.wf(),
        r matches Err(e) ==> basic_date(value@) is None && (e matches TimeError::InvalidIcsDate {
            literal,
        } && literal@ == value@),
{
    let cs = chars_of(value);
    match parse_basic_date(cs.as_slice()) {
        Some(d) => Ok(d),
        None => Err(TimeError::InvalidIcsDate { literal: value.to_owned() }),
    }
}

/// Parses an imported datetime value into a UTC instant.  A `Z` suffix means
/// the naive value is reinterpreted as UTC directly; a zone reference means
/// the civil time is read in that zone and must be single-valued there; a
/// bare value is treated as already UTC — a deliberate simplification.
pub fn parse_datetime_value(value: &str, tzid: Option<&str>) -> (r: Result<Instant, TimeError>)
    ensures
        r matches Ok(t) ==> t.wf(),
        r matches Ok(t) ==> datetime_instant(value@, opt_ref_view(tzid)) == Some(t.secs as int),
        datetime_instant(value@, opt_ref_view(tzid)) matches Some(t0) ==> (r matches Ok(t)
            && t.secs == t0),
        ends_z(value@) ==> (match basic_datetime(value@.drop_last()) {
            Some(c) => (if instant_lo() <= c.instant_secs() <= instant_hi() {
                r matches Ok(t) && t.secs == c.instant_secs()
            } else {
                r matches Err(e) && e is DateOverflow
            }),
            None => r matches Err(e) && (e matches TimeError::InvalidIcsDateTime { literal }
                && literal@ == value@),
        }),
        !ends_z(value@) && tzid is None ==> (match basic_datetime(value@) {
            Some(c) => (if instant_lo() <= c.instant_secs() <= instant_hi() {
                r matches Ok(t) && t.secs == c.instant_secs()
            } else {
                r matches Err(e) && e is DateOverflow
            }),
            None => r matches Err(e) && (e matches TimeError::InvalidIcsDateTime { literal }
                && literal@ == value@),
        }),
        !ends_z(value@) ==> (tzid matches Some(z) ==> (match basic_datetime(value@) {
            Some(c) => ({
                &&& crate::zones::zone_civil(z@, 0) is None ==> (r matches Err(e) && (e matches
                    TimeError::UnknownTimezone { literal } && literal@ == z@))
                &&& crate::zones::zone_civil(z@, 0) is Some ==> (match zone_single_instant(
                    z@,
                    c.date.year as int,
                    c.date.month as int,
                    c.date.day as int,
                    c.time.hour as int,
                    c.time.minute as int,
                    c.time.second as int,
                ) {
                    Some(t0) => (if instant_lo() <= t0 <= instant_hi() {
                        r matches Ok(t) && t.secs == t0
                    } else {
                        r matches Err(e) && e is DateOverflow
                    }),
                    None => r matches Err(e) && (e matches TimeError::AmbiguousZoneTime {
                        literal,
                        zone,
                    } && literal@ == value@ && zone@ == z@),
                })
            }),
            None => r matches Err(e) && (e matches TimeError::InvalidIcsDateTime { literal }
                && literal@ == value@),
        })),
{
    let cs = chars_of(value);
    let n = cs.len();
    if n > 0 && cs[n - 1] == 'Z' {
        let naive = vstd::slice::slice_subrange(cs.as_slice(), 0, n - 1);
        proof {
            assert(cs@.subrange(0, n - 1) =~= value@.drop_last());
        }
        let c = match parse_basic_datetime(naive) {
            Some(c) => c,
            None => {
                return Err(TimeError::InvalidIcsDateTime { literal: value.to_owned() });
            },
        };
        return checked_civil_utc(&c);
    }
    if let Some(z) = tzid {
        let c = match parse_basic_datetime(cs.as_slice()) {
            Some(c) => c,
            None => {
                return Err(TimeError::InvalidIcsDateTime { literal: value.to_owned() });
            },
        };
        if !zone_known(z) {
            return Err(TimeError::UnknownTimezone { literal: z.to_owned() });
        }
        match crate::zones::zone_single_of(z, &c) {
            Some(secs) => {
                let lo = instant_lo_value();
                let hi = instant_hi_value();
                if lo <= secs && secs <= hi {
                    return Ok(Instant { secs });
                }
                return Err(TimeError::DateOverflow);
            },
            None => {
                return Err(
                    TimeError::AmbiguousZoneTime { literal: value.to_owned(), zone: z.to_owned() },
                );
            },
        }
    }
    let c = match parse_basic_datetime(cs.as_slice()) {
        Some(c) => c,
        None => {
            return Err(TimeError::InvalidIcsDateTime { literal: value.to_owned() });
        },
    };
    checked_civil_utc(&c)
}

/// Left-to-right, non-overlapping replacement of the two-character pattern
/// `a b` by the single character `c`.
pub open spec fn replace2(s: Seq<char>, a: char, b: char, c: char) -> Seq<char>
    decreases s.len(),
{
    if s.len() >= 2 && s[0] == a && s[1] == b {
        seq![c] + replace2(s.skip(2), a, b, c)
    } else if s.len() == 0 {
        s
    } else {
        seq![s[0]] + replace2(s.drop_first(), a, b, c)
    }
}

/// The unescaped form of calendar text: escaped backslashes, newlines
/// (either case), commas and semicolons, unescaped in that order.
pub open spec fn unescaped(s: Seq<char>) -> Seq<char> {
    replace2(
        replace2(
            replace2(replace2(replace2(s, '\\', '\\', '\\'), '\\', 'n', '\n'), '\\', 'N', '\n'),
            '\\',
            ',',
            ',',
        ),
        '\\',
        ';',
        ';',
    )
}

fn replace_pair(v: &[char], a: char, b: char, c: char) -> (r: Vec<char>)
    ensures
        r@ == replace2(v@, a, b, c),
{
    let mut out: Vec<char> = Vec::new();
    let mut i: usize = 0;
    proof {
        assert(v@.skip(0) =~= v@);
    }
    while i < v.len()
        invariant
            i <= v@.len(),
            replace2(v@, a, b, c) == out@ + replace2(v@.skip(i as int), a, b, c),
        decreases v@.len() - i,
    {
        let cur = *vstd::slice::slice_index_get(v, i);
        if i + 1 < v.len() && cur == a && *vstd::slice::slice_index_get(v, i + 1) == b {
            proof {
                assert(v@.skip(i as int).skip(2) =~= v@.skip(i as int + 2));
                assert(replace2(v@.skip(i as int), a, b, c) == seq![c] + replace2(
                    v@.skip(i as int + 2),
                    a,
                    b,
                    c,
                ));
            }
            out.push(c);
            i = i + 2;
            proof {
                assert(replace2(v@, a, b, c) == out@ + replace2(v@.skip(i as int), a, b, c));
            }
        } else {
            proof {
                assert(v@.skip(i as int).drop_first() =~= v@.skip(i as int + 1));
                assert(replace2(v@.skip(i as int), a, b, c) == seq![v@[i as int]] + replace2(
                    v@.skip(i as int + 1),
                    a,
                    b,
                    c,
                ));
            }
            out.push(cur);
            i = i + 1;
            proof {
                assert(replace2(v@, a, b, c) == out@ + replace2(v@.skip(i as int), a, b, c));
            }
        }
    }
    proof {
        assert(v@.skip(v@.len() as int) =~= Seq::<char>::empty());
        assert(out@ =~= replace2(v@, a, b, c));
    }
    out
}

/// Builds a string from characters.
pub fn chars_to_string(v: &[char]) -> (out: String)
    ensures
        out@ == v@,
{
    let mut out = String::new();
    let mut i: usize = 0;
    while i < v.len()
        invariant
            i <= v@.len(),
            out@ == v@.subrange(0, i as int),
        decreases v@.len() - i,
    {
        push_char(&mut out, *vstd::slice::slice_index_get(v, i));
        i = i + 1;
        proof {
            assert(out@ =~= v@.subrange(0, i as int));
        }
    }
    proof {
        assert(out@ =~= v@);
    }
    out
}

/// Unescapes calendar text; mirrors `unescaped`.
pub fn unescape_ics_text(value: &str) -> (out: String)
    ensures
        out@ == unescaped(value@),
{
    let cs = chars_of(value);
    let p1 = replace_pair(cs.as_slice(), '\\', '\\', '\\');
    let p2 = replace_pair(p1.as_slice(), '\\', 'n', '\n');
    let p3 = replace_pair(p2.as_slice(), '\\', 'N', '\n');
    let p4 = replace_pair(p3.as_slice(), '\\', ',', ',');
    let p5 = replace_pair(p4.as_slice(), '\\', ';', ';');
    chars_to_string(p5.as_slice())
}

/// The comma-separated pieces of a text, in order, empty pieces included.
pub open spec fn split_commas(s: Seq<char>) -> Seq<Seq<char>>
    decreases s.len(),
{
    if s.len() == 0 {
        seq![s]
    } else if s[0] == ',' {
        seq![Seq::<char>::empty()] + split_commas(s.drop_first())
    } else {
        let rest = split_commas(s.drop_first());
        seq![seq![s[0]] + rest[0]] + rest.skip(1)
    }
}

proof fn lemma_split_len(s: Seq<char>)
    ensures
        split_commas(s).len() >= 1,
    decreases s.len(),
{
    if s.len() > 0 {
        lemma_split_len(s.drop_first());
    }
}

/// Splitting at the first comma: the piece before it, then the split of the
/// remainder.
proof fn lemma_split_at(s: Seq<char>, i: int)
    requires
        0 <= i <= s.len(),
        forall|j: int| 0 <= j < i ==> s[j] != ',',
        i < s.len() ==> s[i] == ',',
    ensures
        i < s.len() ==> split_commas(s) == seq![s.take(i)] + split_commas(s.skip(i + 1)),
        i == s.len() ==> split_commas(s) == seq![s.take(i)],
    decreases i,
{
    if i == 0 {
        if 0 < s.len() {
            assert(s.take(0) =~= Seq::<char>::empty());
            assert(s.skip(1) =~= s.drop_first());
        } else {
            assert(s.take(0) =~= s);
        }
    } else {
        let d = s.drop_first();
        lemma_split_at(d, i - 1);
        lemma_split_len(d);
        let rest = split_commas(d);
        if i < s.len() {
            assert(d.skip(i) =~= s.skip(i + 1));
            assert(rest == seq![d.take(i - 1)] + split_commas(d.skip(i)));
            assert(seq![s[0]] + rest[0] =~= s.take(i));
            assert(rest.skip(1) =~= split_commas(s.skip(i + 1)));
            assert(split_commas(s) =~= seq![s.take(i)] + split_commas(s.skip(i + 1)));
        } else {
            assert(rest == seq![d.take(i - 1)]);
            assert(seq![s[0]] + rest[0] =~= s.take(i));
            assert(rest.skip(1) =~= Seq::<Seq<char>>::empty());
            assert(split_commas(s) =~= seq![s.take(i)]);
        }
    }
}

/// The tag texts a `CATEGORIES` value denotes: its comma-separated pieces,
/// trimmed, empty ones dropped.
pub open spec fn tags_of(s: Seq<char>) -> Seq<Seq<char>> {
    mf(split_commas(s))
}

/// Trimming then dropping empties, over a piece sequence.
pub open spec fn mf(pieces: Seq<Seq<char>>) -> Seq<Seq<char>>
    decreases pieces.len(),
{
    if pieces.len() == 0 {
        Seq::empty()
    } else if crate::text::trim_of(pieces.last()).len() > 0 {
        mf(pieces.drop_last()).push(crate::text::trim_of(pieces.last()))
    } else {
        mf(pieces.drop_last())
    }
}

/// The views of a string sequence.
pub open spec fn views_of(v: Seq<String>) -> Seq<Seq<char>>
    decreases v.len(),
{
    if v.len() == 0 {
        Seq::empty()
    } else {
        views_of(v.drop_last()).push(v.last()@)
    }
}

/// Splits a tag list on commas, trimming each piece and dropping empty
/// ones; mirrors `tags_of`.
pub fn split_tags(value: &str) -> (r: Vec<String>)
    ensures
        views_of(r@) == tags_of(value@),
{
    let cs = chars_of(value);
    let n = cs.len();
    let mut out: Vec<String> = Vec::new();
    let mut p: usize = 0;
    proof {
        assert(cs@.skip(0) =~= cs@);
        assert(views_of(out@) =~= Seq::<Seq<char>>::empty());
        assert(Seq::<Seq<char>>::empty() + mf(split_commas(cs@)) =~= mf(split_commas(cs@)));
    }
    loop
        invariant
            p <= n,
            n == cs@.len(),
            cs@ == value@,
            tags_of(value@) == views_of(out@) + mf(split_commas(cs@.skip(p as int))),
        decreases n - p + 1,
    {
        let mut e: usize = p;
        while e < n && cs[e] != ','
            invariant
                p <= e <= n,
                n == cs@.len(),
                forall|j: int| p <= j < e ==> cs@[j] != ',',
            decreases n - e,
        {
            e = e + 1;
        }
        let ghost rem = cs@.skip(p as int);
        let ghost tok = cs@.subrange(p as int, e as int);
        proof {
            lemma_split_at(rem, e - p);
            assert(rem.take(e - p) =~= tok);
            if e < n {
                assert(rem.skip(e - p + 1) =~= cs@.skip(e as int + 1));
            }
        }
        let token = vstd::slice::slice_subrange(cs.as_slice(), p, e);
        let trimmed = crate::text::trim_chars(token);
        let ghost prev = out@;
        let ghost old_views = views_of(out@);
        proof {
            lemma_mf_single(tok);
            if e < n {
                lemma_mf_add(seq![tok], split_commas(cs@.skip(e as int + 1)));
            }
        }
        if trimmed.len() > 0 {
            let tag = chars_to_string(trimmed.as_slice());
            out.push(tag);
            proof {
                assert(out@.drop_last() =~= prev);
                assert(out@.last()@ == crate::text::trim_of(tok));
                assert(views_of(out@) == views_of(prev).push(crate::text::trim_of(tok)));
                assert(views_of(prev).push(crate::text::trim_of(tok)) =~= views_of(prev) + mf(
                    seq![tok],
                ));
            }
        } else {
            proof {
                assert(old_views + mf(seq![tok]) =~= old_views);
            }
        }
        proof {
            assert(views_of(out@) == old_views + mf(seq![tok]));
        }
        if e < n {
            proof {
                let rest2 = mf(split_commas(cs@.skip(e as int + 1)));
                assert(old_views + (mf(seq![tok]) + rest2) =~= (old_views + mf(seq![tok]))
                    + rest2);
            }
            p = e + 1;
        } else {
            proof {
                assert(mf(split_commas(cs@.skip(p as int))) == mf(seq![tok]));
                assert(tags_of(value@) =~= views_of(out@));
            }
            return out;
        }
    }
}

proof fn lemma_mf_single(t: Seq<char>)
    ensures
        crate::text::trim_of(t).len() > 0 ==> mf(seq![t]) == seq![crate::text::trim_of(t)],
        crate::text::trim_of(t).len() == 0 ==> mf(seq![t]) == Seq::<Seq<char>>::empty(),
{
    assert(seq![t].drop_last() =~= Seq::<Seq<char>>::empty());
    assert(mf(Seq::<Seq<char>>::empty()) == Seq::<Seq<char>>::empty());
    if crate::text::trim_of(t).len() > 0 {
        assert(mf(seq![t]) =~= seq![crate::text::trim_of(t)]);
    }
}

proof fn lemma_mf_add(a: Seq<Seq<char>>, b: Seq<Seq<char>>)
    ensures
        mf(a + b) == mf(a) + mf(b),
    decreases b.len(),
{
    if b.len() == 0 {
        assert(a + b =~= a);
        assert(mf(a) + mf(b) =~= mf(a));
    } else {
        lemma_mf_add(a, b.drop_last());
        assert((a + b).drop_last() =~= a + b.drop_last());
        assert((a + b).last() == b.last());
        if crate::text::trim_of(b.last()).len() > 0 {
            assert(mf(a) + mf(b) =~= (mf(a) + mf(b.drop_last())).push(
                crate::text::trim_of(b.last()),
            ));
        }
    }
}

/// Reads a `DTSTART` property: an all-day marker yields its date's midnight
/// instant; otherwise the datetime value, read with its zone reference.
pub fn parse_ics_datetime(prop: &IcsProperty) -> (r: Result<(Instant, bool), TimeError>)
    ensures
        r matches Ok(p) ==> p.0.wf() && p.1 == spec_is_all_day(*prop),
        r matches Ok(p) ==> dtstart_instant(*prop) == Some(p.0.secs as int),
        dtstart_instant(*prop) matches Some(t0) ==> (r matches Ok(p) && p.0.secs == t0),
        prop.value is None ==> (r matches Err(e) && (e matches TimeError::MissingValue { name }
            && name@ == "DTSTART"@)),
        prop.value matches Some(val) ==> (spec_is_all_day(*prop) ==> (match basic_date(val@) {
            Some(d) => r matches Ok(p) && p.0.secs == crate::timing::day_start_secs(d.day_index()),
            None => r matches Err(e) && (e matches TimeError::InvalidIcsDate { literal } && literal@
                == val@),
        })),
        prop.value matches Some(val) ==> ((!spec_is_all_day(*prop) && ends_z(val@)) ==> (match
            basic_datetime(val@.drop_last()) {
            Some(c) => r matches Ok(p) && p.0.secs == c.instant_secs(),
            None => r is Err,
        })),
        prop.value matches Some(val) ==> ((!spec_is_all_day(*prop) && !ends_z(val@)
            && param_first_value(prop.params@, seq!['T', 'Z', 'I', 'D']) is None) ==> (match
            basic_datetime(val@) {
            Some(c) => r matches Ok(p) && p.0.secs == c.instant_secs(),
            None => r is Err,
        })),
{
    proof {
        reveal_strlit("TZID");
        assert("TZID"@ =~= seq!['T', 'Z', 'I', 'D']);
    }
    let value = match &prop.value {
        Some(v) => v,
        None => {
            return Err(TimeError::MissingValue { name: "DTSTART".to_owned() });
        },
    };
    if is_all_day(prop) {
        let d = match parse_date_value(value.as_str()) {
            Ok(d) => d,
            Err(e) => {
                return Err(e);
            },
        };
        let midnight = TimeOfDay { hour: 0, minute: 0, second: 0 };
        let civ = CivilDateTime { date: d, time: midnight };
        proof {
            lemma_civil_secs_range(civ);
            assert(civ.instant_secs() == crate::timing::day_start_secs(d.day_index()));
        }
        let t = civil_to_instant(&civ);
        return Ok((t, true));
    }
    proof {
        let val = prop.value->0;
        if ends_z(val@) && basic_datetime(val@.drop_last()) is Some {
            lemma_civil_secs_range(basic_datetime(val@.drop_last())->0);
        }
        if !ends_z(val@) && basic_datetime(val@) is Some {
            lemma_civil_secs_range(basic_datetime(val@)->0);
        }
    }
    let tzid = property_param(prop, "TZID");
    let tz_ref: Option<&str> = match &tzid {
        Some(z) => Some(z.as_str()),
        None => None,
    };
    match parse_datetime_value(value.as_str(), tz_ref) {
        Ok(t) => Ok((t, false)),
        Err(e) => Err(e),
    }
}

/// Reads the end boundary: an explicit `DTEND` decides (as a date when the
/// event or the property is all-day, else as a datetime); a missing end
/// defaults to one day past the start for all-day events, one hour for timed
/// ones.
pub fn parse_ics_end(props: &Vec<IcsProperty>, all_day: bool, start: &Instant) -> (r: Result<
    Instant,
    TimeError,
>)
    requires
        start.wf(),
    ensures
        r matches Ok(t) ==> t.wf(),
        r matches Ok(t) ==> dtend_instant(props@, all_day, start.secs as int) == Some(
            t.secs as int,
        ),
        dtend_instant(props@, all_day, start.secs as int) matches Some(t0) ==> (r matches Ok(t)
            && t.secs == t0),
        first_prop(props@, seq!['D', 'T', 'E', 'N', 'D']) is None ==> ({
            let d: int = if all_day {
                86400
            } else {
                3600
            };
            if start.secs + d <= instant_hi() {
                r matches Ok(t) && t.secs == start.secs + d
            } else {
                r matches Err(e) && e is DateOverflow
            }
        }),
        first_prop(props@, seq!['D', 'T', 'E', 'N', 'D']) matches Some(i) ==> ((all_day
            || spec_is_all_day(props@[i])) ==> (match props@[i].value {
            None => r matches Err(e) && (e matches TimeError::MissingValue { name } && name@
                == "DTEND"@),
            Some(val) => (match basic_date(val@) {
                Some(d) => r matches Ok(t) && t.secs == crate::timing::day_start_secs(
                    d.day_index(),
                ),
                None => r matches Err(e) && (e matches TimeError::InvalidIcsDate { literal }
                    && literal@ == val@),
            }),
        })),
{
    proof {
        reveal_strlit("DTEND");
        reveal_strlit("TZID");
        assert("DTEND"@ =~= seq!['D', 'T', 'E', 'N', 'D']);
        assert("DTEND"@ == dtend_key());
        assert("TZID"@ =~= seq!['T', 'Z', 'I', 'D']);
        assert("TZID"@ == tzid_key());
    }
    match get_property(props, "DTEND") {
        Some(i) => {
            let prop = &props[i];
            if all_day || is_all_day(prop) {
                let value = match &prop.value {
                    Some(v) => v,
                    None => {
                        return Err(TimeError::MissingValue { name: "DTEND".to_owned() });
                    },
                };
                let d = match parse_date_value(value.as_str()) {
                    Ok(d) => d,
                    Err(e) => {
                        return Err(e);
                    },
                };
                let midnight = TimeOfDay { hour: 0, minute: 0, second: 0 };
                let civ = CivilDateTime { date: d, time: midnight };
                proof {
                    lemma_civil_secs_range(civ);
                    assert(civ.instant_secs() == crate::timing::day_start_secs(d.day_index()));
                }
                Ok(civil_to_instant(&civ))
            } else {
                let value = match &prop.value {
                    Some(v) => v,
                    None => {
                        return Err(TimeError::MissingValue { name: "DTEND".to_owned() });
                    },
                };
                let tzid = property_param(prop, "TZID");
                let tz_ref: Option<&str> = match &tzid {
                    Some(z) => Some(z.as_str()),
                    None => None,
                };
                parse_datetime_value(value.as_str(), tz_ref)
            }
        },
        None => {
            let d: i64 = if all_day {
                86400
            } else {
                3600
            };
            proof {
                crate::instant::lemma_instant_bounds_numeric();
            }
            let hi = instant_hi_value();
            if start.secs + d <= hi {
                Ok(Instant { secs: start.secs + d })
            } else {
                Err(TimeError::DateOverflow)
            }
        },
    }
}

/// Reduces one imported calendar event's properties to a stored event.  A
/// record without a start boundary is skipped, not failed; the summary
/// becomes the title (a fallback title when absent or empty), and the
/// categories become the tags.
#[verifier::rlimit(100)]
#[verifier::spinoff_prover]
pub fn convert_ics_event(props: &Vec<IcsProperty>) -> (r: Result<Option<NewEvent>, TimeError>)
    ensures
        first_prop(props@, seq!['D', 'T', 'S', 'T', 'A', 'R', 'T']) is None ==> (r matches Ok(o)
            && o is None),
        r matches Ok(o) ==> (o is None <==> first_prop(props@, dtstart_key()) is None),
        r matches Ok(o) ==> (o matches Some(ev) ==> (first_prop(props@, dtstart_key()) matches
            Some(i) && (match dtstart_instant(props@[i]) {
            Some(sv) => ({
                &&& rfc3339_secs(ev.starts_at@) == Some(sv)
                &&& ev.starts_at@ == crate::rfc3339::canonical_utc_text(sv)
                &&& dtend_instant(props@, ev.all_day, sv) matches Some(e2) && rfc3339_secs(
                    ev.ends_at@,
                ) == Some(e2) && ev.ends_at@ == crate::rfc3339::canonical_utc_text(e2)
            }),
            None => false,
        }))),
        first_prop(props@, dtstart_key()) matches Some(i) ==> ((dtstart_instant(props@[i]) matches
            Some(sv) && dtend_instant(props@, spec_is_all_day(props@[i]), sv) is Some) ==> (
        r matches Ok(o) && o is Some)),
        r matches Ok(o) ==> (o matches Some(ev) ==> ({
            &&& rfc3339_secs(ev.starts_at@) is Some
            &&& rfc3339_secs(ev.ends_at@) is Some
            &&& first_prop(props@, seq!['D', 'T', 'S', 'T', 'A', 'R', 'T']) matches Some(i)
                && ev.all_day == spec_is_all_day(props@[i])
            &&& ev.title@ == spec_title(props@)
            &&& ev.note@ == spec_note(props@)
            &&& views_of(ev.tags@) == spec_tag_texts(props@)
            &&& opt_string_view(ev.uid) == spec_uid(props@)
        })),
{
    proof {
        reveal_strlit("DTSTART");
        reveal_strlit("SUMMARY");
        reveal_strlit("DESCRIPTION");
        reveal_strlit("CATEGORIES");
        reveal_strlit("UID");
        reveal_strlit("Imported event");
        assert("DTSTART"@ =~= seq!['D', 'T', 'S', 'T', 'A', 'R', 'T']);
        assert("DTSTART"@ == dtstart_key());
        assert("SUMMARY"@ =~= seq!['S', 'U', 'M', 'M', 'A', 'R', 'Y']);
        assert("DESCRIPTION"@ =~= seq!['D', 'E', 'S', 'C', 'R', 'I', 'P', 'T', 'I', 'O', 'N']);
        assert("CATEGORIES"@ =~= seq!['C', 'A', 'T', 'E', 'G', 'O', 'R', 'I', 'E', 'S']);
        assert("UID"@ =~= seq!['U', 'I', 'D']);
    }
    let start_prop = match get_property(props, "DTSTART") {
        Some(i) => i,
        None => {
            return Ok(None);
        },
    };
    let (start, all_day) = match parse_ics_datetime(&props[start_prop]) {
        Ok(p) => p,
        Err(e) => {
            return Err(e);
        },
    };
    let end = match parse_ics_end(props, all_day, &start) {
        Ok(t) => t,
        Err(e) => {
            return Err(e);
        },
    };
    let title = match get_property(props, "SUMMARY") {
        Some(i) => match &props[i].value {
            Some(v) => {
                let text = unescape_ics_text(v.as_str());
                if text.as_str().unicode_len() > 0 {
                    text
                } else {
                    "Imported event".to_owned()
                }
            },
            None => "Imported event".to_owned(),
        },
        None => "Imported event".to_owned(),
    };
    let note = match get_property(props, "DESCRIPTION") {
        Some(i) => match &props[i].value {
            Some(v) => unescape_ics_text(v.as_str()),
            None => String::new(),
        },
        None => String::new(),
    };
    let tags = match get_property(props, "CATEGORIES") {
        Some(i) => match &props[i].value {
            Some(v) => {
                let text = unescape_ics_text(v.as_str());
                split_tags(text.as_str())
            },
            None => Vec::new(),
        },
        None => Vec::new(),
    };
    let uid = match get_property(props, "UID") {
        Some(i) => match &props[i].value {
            Some(v) => Some(unescape_ics_text(v.as_str())),
            None => None,
        },
        None => None,
    };
    proof {
        assert(views_of(Seq::<String>::empty()) =~= Seq::<Seq<char>>::empty());
    }
    Ok(
        Some(
            NewEvent {
                title,
                note,
                starts_at: crate::rfc3339::rfc3339_utc_string(&start),
                ends_at: crate::rfc3339::rfc3339_utc_string(&end),
                all_day,
                tags,
                uid,
            },
        ),
    )
}

/// The view of an optional text.
pub open spec fn opt_string_view(o: Option<String>) -> Option<Seq<char>> {
    match o {
        Some(s) => Some(s@),
        None => None,
    }
}

/// The title an imported record gets: its unescaped summary, or the fallback
/// title when the summary is absent or empty.
pub open spec fn spec_title(props: Seq<IcsProperty>) -> Seq<char> {
    match first_prop(props, seq!['S', 'U', 'M', 'M', 'A', 'R', 'Y']) {
        Some(i) => match props[i].value {
            Some(v) => if unescaped(v@).len() > 0 {
                unescaped(v@)
            } else {
                "Imported event"@
            },
            None => "Imported event"@,
        },
        None => "Imported event"@,
    }
}

/// The note an imported record gets: its unescaped description, or nothing.
pub open spec fn spec_note(props: Seq<IcsProperty>) -> Seq<char> {
    match first_prop(props, seq!['D', 'E', 'S', 'C', 'R', 'I', 'P', 'T', 'I', 'O', 'N']) {
        Some(i) => match props[i].value {
            Some(v) => unescaped(v@),
            None => Seq::empty(),
        },
        None => Seq::empty(),
    }
}

/// The tags an imported record gets: its unescaped categories, split.
pub open spec fn spec_tag_texts(props: Seq<IcsProperty>) -> Seq<Seq<char>> {
    match first_prop(props, seq!['C', 'A', 'T', 'E', 'G', 'O', 'R', 'I', 'E', 'S']) {
        Some(i) => match props[i].value {
            Some(v) => tags_of(unescaped(v@)),
            None => Seq::empty(),
        },
        None => Seq::empty(),
    }
}

/// The unique identifier an imported record carries, unescaped.
pub open spec fn spec_uid(props: Seq<IcsProperty>) -> Option<Seq<char>> {
    match first_prop(props, seq!['U', 'I', 'D']) {
        Some(i) => match props[i].value {
            Some(v) => Some(unescaped(v@)),
            None => None,
        },
        None => None,
    }
}

/// Reads a civil value as UTC, guarding the representable range.
fn checked_civil_utc(c: &CivilDateTime) -> (r: Result<Instant, TimeError>)
    requires
        c.wf(),
    ensures
        r matches Ok(t) ==> t.wf() && t.secs == c.instant_secs(),
        r matches Err(e) ==> e is DateOverflow,
        instant_lo() <= c.instant_secs() <= instant_hi() ==> r is Ok,
{
    proof {
        lemma_civil_secs_range(*c);
    }
    let t = civil_to_instant(c);
    Ok(t)
}

} // verus!
