//! The textual formats of the canonical representation: strict `YYYY-MM-DD`
//! dates, `HH:MM[:SS]` clock times, and RFC 3339 timestamps.  Every persisted
//! timestamp is rendered here with explicit `+00:00` offset, and parsed back
//! by the same grammar.

use vstd::prelude::*;
use vstd::slice::{slice_index_get, slice_subrange};
use crate::dates::Date;
use crate::instant::{
    CivilDateTime, Instant, TimeOfDay, civil_to_instant, instant_lo, instant_hi, instant_to_civil,
    lemma_civil_secs_range,
};
use crate::text::{digit, digit_char, digit_val, is_digit, push_char};

verus! {

/// The date a strict, zero-padded `YYYY-MM-DD` text denotes.
pub open spec fn strict_date(s: Seq<char>) -> Option<Date> {
    if s.len() == 10 && is_digit(s[0]) && is_digit(s[1]) && is_digit(s[2]) && is_digit(s[3]) && s[4]
        == '-' && is_digit(s[5]) && is_digit(s[6]) && s[7] == '-' && is_digit(s[8]) && is_digit(
        s[9],
    ) {
        let y = digit_val(s[0]) * 1000 + digit_val(s[1]) * 100 + digit_val(s[2]) * 10 + digit_val(
            s[3],
        );
        let m = digit_val(s[5]) * 10 + digit_val(s[6]);
        let d = digit_val(s[8]) * 10 + digit_val(s[9]);
        let date = Date { year: y as i64, month: m as u8, day: d as u8 };
        if date.wf() {
            Some(date)
        } else {
            None
        }
    } else {
        None
    }
}

/// The clock time a strict `HH:MM:SS` text denotes.
pub open spec fn strict_hms(s: Seq<char>) -> Option<TimeOfDay> {
    if s.len() == 8 && is_digit(s[0]) && is_digit(s[1]) && s[2] == ':' && is_digit(s[3]) && is_digit(
        s[4],
    ) && s[5] == ':' && is_digit(s[6]) && is_digit(s[7]) {
        let h = digit_val(s[0]) * 10 + digit_val(s[1]);
        let mi = digit_val(s[3]) * 10 + digit_val(s[4]);
        let sec = digit_val(s[6]) * 10 + digit_val(s[7]);
        let t = TimeOfDay { hour: h as u8, minute: mi as u8, second: sec as u8 };
        if t.wf() {
            Some(t)
        } else {
            None
        }
    } else {
        None
    }
}

/// The clock time a strict `HH:MM` text denotes (seconds zero).
pub open spec fn strict_hm(s: Seq<char>) -> Option<TimeOfDay> {
    if s.len() == 5 && is_digit(s[0]) && is_digit(s[1]) && s[2] == ':' && is_digit(s[3]) && is_digit(
        s[4],
    ) {
        let h = digit_val(s[0]) * 10 + digit_val(s[1]);
        let mi = digit_val(s[3]) * 10 + digit_val(s[4]);
        let t = TimeOfDay { hour: h as u8, minute: mi as u8, second: 0 };
        if t.wf() {
            Some(t)
        } else {
            None
        }
    } else {
        None
    }
}

/// How many ASCII digits lead the text.
pub open spec fn frac_digits(s: Seq<char>) -> int
    decreases s.len(),
{
    if s.len() > 0 && is_digit(s[0]) {
        1 + frac_digits(s.drop_first())
    } else {
        0
    }
}

/// The offset, in seconds east of UTC, that an RFC 3339 offset suffix
/// (`Z`, `z`, or `+HH:MM` / `-HH:MM`) denotes.
pub open spec fn offset_secs(o: Seq<char>) -> Option<int> {
    if o.len() == 1 && (o[0] == 'Z' || o[0] == 'z') {
        Some(0)
    } else if o.len() == 6 && (o[0] == '+' || o[0] == '-') && is_digit(o[1]) && is_digit(o[2]) && o[3]
        == ':' && is_digit(o[4]) && is_digit(o[5]) {
        let h = digit_val(o[1]) * 10 + digit_val(o[2]);
        let m = digit_val(o[4]) * 10 + digit_val(o[5]);
        if h <= 23 && m <= 59 {
            if o[0] == '-' {
                Some(-(h * 3600 + m * 60))
            } else {
                Some(h * 3600 + m * 60)
            }
        } else {
            None
        }
    } else {
        None
    }
}

/// The UTC instant an RFC 3339 timestamp denotes, in seconds since the Unix
/// epoch: date, `T` (or `t` or a space), `HH:MM:SS`, an optional fraction
/// (truncated: instants have second resolution), and an offset.  None when
/// the text deviates from the grammar or the instant leaves the range that a
/// year 0000-9999 UTC date can carry.
pub open spec fn rfc3339_secs(s: Seq<char>) -> Option<int> {
    if s.len() < 20 {
        None
    } else {
        let sep_ok = s[10] == 'T' || s[10] == 't' || s[10] == ' ';
        let rest = s.skip(19);
        let frac = frac_digits(rest.skip(1));
        let tail = if rest[0] == '.' && frac > 0 {
            rest.skip(1 + frac)
        } else {
            rest
        };
        match (strict_date(s.subrange(0, 10)), strict_hms(s.subrange(11, 19))) {
            (Some(d), Some(t)) => if sep_ok {
                match offset_secs(tail) {
                    Some(off) => {
                        let v = CivilDateTime { date: d, time: t }.instant_secs() - off;
                        if instant_lo() <= v <= instant_hi() {
                            Some(v)
                        } else {
                            None
                        }
                    },
                    None => None,
                }
            } else {
                None
            },
            _ => None,
        }
    }
}

/// The canonical rendering of a year as four digits.
pub open spec fn year_digits(y: int) -> Seq<char> {
    let d0 = y / 1000;
    let r1 = y % 1000;
    let d1 = r1 / 100;
    let r2 = r1 % 100;
    seq![digit_char(d0), digit_char(d1), digit_char(r2 / 10), digit_char(r2 % 10)]
}

/// The canonical rendering of a value below 100 as two digits.
pub open spec fn two_digits(n: int) -> Seq<char> {
    seq![digit_char(n / 10), digit_char(n % 10)]
}

/// The canonical `YYYY-MM-DD` text of a date.
pub open spec fn date_text(d: Date) -> Seq<char> {
    year_digits(d.year as int) + seq!['-'] + two_digits(d.month as int) + seq!['-'] + two_digits(
        d.day as int,
    )
}

/// The canonical `HH:MM:SS` text of a clock time.
pub open spec fn hms_text(t: TimeOfDay) -> Seq<char> {
    two_digits(t.hour as int) + seq![':'] + two_digits(t.minute as int) + seq![':'] + two_digits(
        t.second as int,
    )
}

/// The canonical `HH:MM` text of a clock time.
pub open spec fn hm_text(t: TimeOfDay) -> Seq<char> {
    two_digits(t.hour as int) + seq![':'] + two_digits(t.minute as int)
}

pub proof fn lemma_digit_char(k: int)
    requires
        0 <= k <= 9,
    ensures
        is_digit(digit_char(k)),
        digit_val(digit_char(k)) == k,
{
    if k == 0 {
        assert(digit_char(0) == '0' && digit_val('0') == 0);
    } else if k == 1 {
        assert(digit_char(1) == '1' && digit_val('1') == 1);
    } else if k == 2 {
        assert(digit_char(2) == '2' && digit_val('2') == 2);
    } else if k == 3 {
        assert(digit_char(3) == '3' && digit_val('3') == 3);
    } else if k == 4 {
        assert(digit_char(4) == '4' && digit_val('4') == 4);
    } else if k == 5 {
        assert(digit_char(5) == '5' && digit_val('5') == 5);
    } else if k == 6 {
        assert(digit_char(6) == '6' && digit_val('6') == 6);
    } else if k == 7 {
        assert(digit_char(7) == '7' && digit_val('7') == 7);
    } else if k == 8 {
        assert(digit_char(8) == '8' && digit_val('8') == 8);
    } else {
        assert(digit_char(9) == '9' && digit_val('9') == 9);
    }
}

/// Parsing a canonically rendered date gives the date back.
pub proof fn lemma_date_text_round_trip(d: Date)
    requires
        d.wf(),
    ensures
        date_text(d).len() == 10,
        strict_date(date_text(d)) == Some(d),
{
    let y = d.year as int;
    let s = date_text(d);
    vstd::arithmetic::div_mod::lemma_fundamental_div_mod(y, 1000);
    vstd::arithmetic::div_mod::lemma_fundamental_div_mod(y % 1000, 100);
    vstd::arithmetic::div_mod::lemma_fundamental_div_mod(y % 1000 % 100, 10);
    vstd::arithmetic::div_mod::lemma_fundamental_div_mod(d.month as int, 10);
    vstd::arithmetic::div_mod::lemma_fundamental_div_mod(d.day as int, 10);
    lemma_digit_char(y / 1000);
    lemma_digit_char(y % 1000 / 100);
    lemma_digit_char(y % 1000 % 100 / 10);
    lemma_digit_char(y % 1000 % 100 % 10);
    lemma_digit_char(d.month as int / 10);
    lemma_digit_char(d.month as int % 10);
    lemma_digit_char(d.day as int / 10);
    lemma_digit_char(d.day as int % 10);
    assert(strict_date(s) == Some(d));
}

/// Parsing a canonically rendered clock time gives the time back.
pub proof fn lemma_hms_text_round_trip(t: TimeOfDay)
    requires
        t.wf(),
    ensures
        hms_text(t).len() == 8,
        strict_hms(hms_text(t)) == Some(t),
{
    vstd::arithmetic::div_mod::lemma_fundamental_div_mod(t.hour as int, 10);
    vstd::arithmetic::div_mod::lemma_fundamental_div_mod(t.minute as int, 10);
    vstd::arithmetic::div_mod::lemma_fundamental_div_mod(t.second as int, 10);
    lemma_digit_char(t.hour as int / 10);
    lemma_digit_char(t.hour as int % 10);
    lemma_digit_char(t.minute as int / 10);
    lemma_digit_char(t.minute as int % 10);
    lemma_digit_char(t.second as int / 10);
    lemma_digit_char(t.second as int % 10);
    assert(strict_hms(hms_text(t)) == Some(t));
}

/// Appends the character of one decimal digit.
fn push_digit(out: &mut String, k: i64)
    requires
        0 <= k <= 9,
    ensures
        final (out)@ == old(out)@.push(digit_char(k as int)),
{
    let c = ((48 + k as u8)) as char;
    proof {
        assert(c == digit_char(k as int));
    }
    push_char(out, c);
}

/// Appends the canonical two-digit rendering of a value below 100.
fn push_two_digits(out: &mut String, n: i64)
    requires
        0 <= n <= 99,
    ensures
        final (out)@ == old(out)@ + two_digits(n as int),
{
    push_digit(out, n / 10);
    push_digit(out, n % 10);
    proof {
        assert(old(out)@.push(digit_char(n as int / 10)).push(digit_char(n as int % 10)) =~= old(
            out,
        )@ + two_digits(n as int));
    }
}

/// Appends the canonical `YYYY-MM-DD` rendering of a date.
pub fn push_date(out: &mut String, d: &Date)
    requires
        d.wf(),
    ensures
        final (out)@ == old(out)@ + date_text(*d),
{
    let y = d.year;
    push_digit(out, y / 1000);
    let r1 = y % 1000;
    push_digit(out, r1 / 100);
    let r2 = r1 % 100;
    push_digit(out, r2 / 10);
    push_digit(out, r2 % 10);
    push_char(out, '-');
    push_two_digits(out, d.month as i64);
    push_char(out, '-');
    push_two_digits(out, d.day as i64);
    proof {
        assert(final (out)@ =~= old(out)@ + date_text(*d));
    }
}

/// Appends the canonical `HH:MM:SS` rendering of a clock time.
pub fn push_hms(out: &mut String, t: &TimeOfDay)
    requires
        t.wf(),
    ensures
        final (out)@ == old(out)@ + hms_text(*t),
{
    push_two_digits(out, t.hour as i64);
    push_char(out, ':');
    push_two_digits(out, t.minute as i64);
    push_char(out, ':');
    push_two_digits(out, t.second as i64);
    proof {
        assert(final (out)@ =~= old(out)@ + hms_text(*t));
    }
}

/// Appends the canonical `HH:MM` rendering of a clock time.
pub fn push_hm(out: &mut String, t: &TimeOfDay)
    requires
        t.wf(),
    ensures
        final (out)@ == old(out)@ + hm_text(*t),
{
    push_two_digits(out, t.hour as i64);
    push_char(out, ':');
    push_two_digits(out, t.minute as i64);
    proof {
        assert(final (out)@ =~= old(out)@ + hm_text(*t));
    }
}

/// The canonical stored form of an instant: its UTC civil reading rendered
/// as an RFC 3339 timestamp with explicit `+00:00` offset.  Parsing the
/// result gives the instant back.
#[verifier::rlimit(60)]
pub fn rfc3339_utc_string(t: &Instant) -> (out: String)
    requires
        t.wf(),
    ensures
        out@.len() == 25,
        rfc3339_secs(out@) == Some(t.secs as int),
        out@ == canonical_utc_text(t.secs as int),
        out@.subrange(19, 25) =~= seq!['+', '0', '0', ':', '0', '0'],
        out@.subrange(0, 10) == date_text(civil_of_date(t.secs as int)),
        strict_date(out@.subrange(0, 10)) == Some(civil_of_date(t.secs as int)),
{
    let c = instant_to_civil(t);
    let mut out = String::new();
    push_date(&mut out, &c.date);
    push_char(&mut out, 'T');
    push_hms(&mut out, &c.time);
    push_char(&mut out, '+');
    push_char(&mut out, '0');
    push_char(&mut out, '0');
    push_char(&mut out, ':');
    push_char(&mut out, '0');
    push_char(&mut out, '0');
    proof {
        lemma_date_text_round_trip(c.date);
        lemma_hms_text_round_trip(c.time);
        let s = out@;
        assert(s =~= date_text(c.date) + seq!['T'] + hms_text(c.time) + seq![
            '+',
            '0',
            '0',
            ':',
            '0',
            '0',
        ]);
        assert(s.subrange(0, 10) =~= date_text(c.date));
        assert(s.subrange(11, 19) =~= hms_text(c.time));
        assert(s.subrange(19, 25) =~= seq!['+', '0', '0', ':', '0', '0']);
        let rest = s.skip(19);
        assert(rest =~= seq!['+', '0', '0', ':', '0', '0']);
        assert(rest[0] == '+');
        assert(offset_secs(rest) == Some(0int)) by {
            assert(digit_val('0') == 0);
        }
        lemma_civil_secs_range(c);
        assert(rfc3339_secs(s) == Some(t.secs as int));
        assert(s =~= canonical_utc_text(t.secs as int));
    }
    out
}

/// The date half of an instant's UTC civil reading.
pub open spec fn civil_of_date(t: int) -> Date {
    crate::instant::civil_of(t).date
}

/// The one canonical stored text of an instant: its UTC civil reading,
/// rendered with explicit `+00:00` offset.
pub open spec fn canonical_utc_text(t: int) -> Seq<char> {
    date_text(crate::instant::civil_of(t).date) + seq!['T'] + hms_text(
        crate::instant::civil_of(t).time,
    ) + seq!['+', '0', '0', ':', '0', '0']
}

/// Parses an RFC 3339 timestamp; mirrors `rfc3339_secs`.
pub fn parse_rfc3339(v: &[char]) -> (r: Option<Instant>)
    ensures
        r matches Some(t) ==> t.wf() && rfc3339_secs(v@) == Some(t.secs as int),
        r is None ==> rfc3339_secs(v@) is None,
{
    if v.len() < 20 {
        return None;
    }
    let date = match parse_strict_date(slice_subrange(v, 0, 10)) {
        Some(d) => d,
        None => {
            return None;
        },
    };
    let sep = *slice_index_get(v, 10);
    if !(sep == 'T' || sep == 't' || sep == ' ') {
        return None;
    }
    let time = match parse_strict_hms(slice_subrange(v, 11, 19)) {
        Some(t) => t,
        None => {
            return None;
        },
    };
    let ghost rest = v@.skip(19);
    let mut k: usize = 0;
    if *slice_index_get(v, 19) == '.' {
        let mut j: usize = 20;
        while j < v.len() && digit(*slice_index_get(v, j))
            invariant
                20 <= j <= v@.len(),
                v@.len() >= 20,
                frac_digits(v@.skip(20)) == j - 20 + frac_digits(v@.skip(j as int)),
            decreases v@.len() - j,
        {
            proof {
                assert(v@.skip(j as int).drop_first() =~= v@.skip(j as int + 1));
            }
            j = j + 1;
        }
        proof {
            if j < v@.len() {
                assert(frac_digits(v@.skip(j as int)) == 0);
            } else {
                assert(v@.skip(j as int) =~= Seq::<char>::empty());
            }
            assert(rest.skip(1) =~= v@.skip(20));
        }
        if j == 20 {
            // a bare dot with no digits: the offset parse below will fail on it
            proof {
                assert(rest[0] == '.' && frac_digits(rest.skip(1)) == 0);
                assert(offset_secs(rest) is None);
            }
            return None;
        }
        k = j - 20;
        proof {
            assert(frac_digits(rest.skip(1)) == k);
        }
    }
    let ghost tail = if rest[0] == '.' && frac_digits(rest.skip(1)) > 0 {
        rest.skip(1 + frac_digits(rest.skip(1)))
    } else {
        rest
    };
    let off_start: usize = if k > 0 {
        20 + k
    } else {
        19
    };
    proof {
        assert(tail =~= v@.skip(off_start as int));
    }
    let off = match parse_offset(slice_subrange(v, off_start, v.len())) {
        Some(o) => o,
        None => {
            return None;
        },
    };
    let civ = CivilDateTime { date, time };
    let base = civil_to_instant(&civ);
    proof {
        lemma_civil_secs_range(civ);
        crate::dates::lemma_day_index_upper(crate::instant::epoch_date());
        crate::dates::lemma_day_index_upper(crate::dates::max_date());
    }
    let secs = base.secs - off as i64;
    let lo = crate::instant::instant_lo_value();
    let hi = crate::instant::instant_hi_value();
    if secs < lo || secs > hi {
        return None;
    }
    Some(Instant { secs })
}

/// Parses a strict `YYYY-MM-DD` date; mirrors `strict_date`.
pub fn parse_strict_date(v: &[char]) -> (r: Option<Date>)
    ensures
        r == strict_date(v@),
{
    if v.len() != 10 {
        return None;
    }
    let c0 = *slice_index_get(v, 0);
    let c1 = *slice_index_get(v, 1);
    let c2 = *slice_index_get(v, 2);
    let c3 = *slice_index_get(v, 3);
    let c4 = *slice_index_get(v, 4);
    let c5 = *slice_index_get(v, 5);
    let c6 = *slice_index_get(v, 6);
    let c7 = *slice_index_get(v, 7);
    let c8 = *slice_index_get(v, 8);
    let c9 = *slice_index_get(v, 9);
    if !(digit(c0) && digit(c1) && digit(c2) && digit(c3) && c4 == '-' && digit(c5) && digit(c6)
        && c7 == '-' && digit(c8) && digit(c9)) {
        return None;
    }
    let y = dv(c0) * 1000 + dv(c1) * 100 + dv(c2) * 10 + dv(c3);
    let m = dv(c5) * 10 + dv(c6);
    let d = dv(c8) * 10 + dv(c9);
    let date = Date { year: y, month: m as u8, day: d as u8 };
    if date_wf_exec(&date) {
        Some(date)
    } else {
        None
    }
}

/// Parses a strict `HH:MM:SS` time; mirrors `strict_hms`.
pub fn parse_strict_hms(v: &[char]) -> (r: Option<TimeOfDay>)
    ensures
        r == strict_hms(v@),
{
    if v.len() != 8 {
        return None;
    }
    let c0 = *slice_index_get(v, 0);
    let c1 = *slice_index_get(v, 1);
    let c2 = *slice_index_get(v, 2);
    let c3 = *slice_index_get(v, 3);
    let c4 = *slice_index_get(v, 4);
    let c5 = *slice_index_get(v, 5);
    let c6 = *slice_index_get(v, 6);
    let c7 = *slice_index_get(v, 7);
    if !(digit(c0) && digit(c1) && c2 == ':' && digit(c3) && digit(c4) && c5 == ':' && digit(c6)
        && digit(c7)) {
        return None;
    }
    let t = TimeOfDay {
        hour: (dv(c0) * 10 + dv(c1)) as u8,
        minute: (dv(c3) * 10 + dv(c4)) as u8,
        second: (dv(c6) * 10 + dv(c7)) as u8,
    };
    if t.hour < 24 && t.minute < 60 && t.second < 60 {
        Some(t)
    } else {
        None
    }
}

/// Parses a strict `HH:MM` time; mirrors `strict_hm`.
pub fn parse_strict_hm(v: &[char]) -> (r: Option<TimeOfDay>)
    ensures
        r == strict_hm(v@),
{
    if v.len() != 5 {
        return None;
    }
    let c0 = *slice_index_get(v, 0);
    let c1 = *slice_index_get(v, 1);
    let c2 = *slice_index_get(v, 2);
    let c3 = *slice_index_get(v, 3);
    let c4 = *slice_index_get(v, 4);
    if !(digit(c0) && digit(c1) && c2 == ':' && digit(c3) && digit(c4)) {
        return None;
    }
    let t = TimeOfDay {
        hour: (dv(c0) * 10 + dv(c1)) as u8,
        minute: (dv(c3) * 10 + dv(c4)) as u8,
        second: 0,
    };
    if t.hour < 24 && t.minute < 60 {
        Some(t)
    } else {
        None
    }
}

/// Parses an RFC 3339 offset suffix; mirrors `offset_secs`.
fn parse_offset(v: &[char]) -> (r: Option<i32>)
    ensures
        r matches Some(o) ==> offset_secs(v@) == Some(o as int) && -86400 < o < 86400,
        r is None ==> offset_secs(v@) is None,
{
    if v.len() == 1 {
        let c = *slice_index_get(v, 0);
        if c == 'Z' || c == 'z' {
            return Some(0);
        }
        return None;
    }
    if v.len() != 6 {
        return None;
    }
    let c0 = *slice_index_get(v, 0);
    let c1 = *slice_index_get(v, 1);
    let c2 = *slice_index_get(v, 2);
    let c3 = *slice_index_get(v, 3);
    let c4 = *slice_index_get(v, 4);
    let c5 = *slice_index_get(v, 5);
    if !((c0 == '+' || c0 == '-') && digit(c1) && digit(c2) && c3 == ':' && digit(c4) && digit(c5))
    {
        return None;
    }
    let h = dv(c1) * 10 + dv(c2);
    let m = dv(c4) * 10 + dv(c5);
    if h > 23 || m > 59 {
        return None;
    }
    let total = (h * 3600 + m * 60) as i32;
    if c0 == '-' {
        Some(-total)
    } else {
        Some(total)
    }
}

fn dv(c: char) -> (r: i64)
    requires
        is_digit(c),
    ensures
        r == digit_val(c),
        0 <= r <= 9,
{
    (c as u32 - '0' as u32) as i64
}

/// A date's well-formedness, decided.
pub fn date_wf_exec(d: &Date) -> (r: bool)
    ensures
        r == d.wf(),
{
    0 <= d.year && d.year <= 9999 && 1 <= d.month && d.month <= 12 && 1 <= d.day && d.day
        <= crate::dates::month_length(d.year, d.month)
}

} // verus!
