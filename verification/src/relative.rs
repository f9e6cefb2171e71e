//! The relative-day grammars: language-tolerant tokens resolved against a
//! base date.  An ordered chain of independent matchers is tried in a fixed
//! priority; the first success wins.

use vstd::prelude::*;
use vstd::slice::slice_subrange;
use crate::dates::{Date, max_date, offset_date};
use crate::errors::TimeError;
use crate::rfc3339::{parse_strict_date, strict_date};
use crate::text::{
    chars_eq, chars_of, digits_value, lower_seq, parse_digits, to_lower_chars, trim_chars,
    trim_of,
};

verus! {

/// The signed day offset of an English `in N day`/`in N days` phrase.
pub open spec fn english_offset(s: Seq<char>) -> Option<int> {
    if s.len() >= 3 && s.subrange(0, 3) == seq!['i', 'n', ' '] {
        let rest = trim_of(s.skip(3));
        if rest.len() >= 5 && rest.subrange(rest.len() - 5, rest.len() as int) == seq![
            ' ',
            'd',
            'a',
            'y',
            's',
        ] {
            digits_value(trim_of(rest.subrange(0, rest.len() - 5)))
        } else if rest.len() >= 4 && rest.subrange(rest.len() - 4, rest.len() as int) == seq![
            ' ',
            'd',
            'a',
            'y',
        ] {
            digits_value(trim_of(rest.subrange(0, rest.len() - 4)))
        } else {
            None
        }
    } else {
        None
    }
}

/// The signed day offset of a `+N`/`-N` token with an optional trailing `d`.
pub open spec fn symbol_offset(s: Seq<char>) -> Option<int> {
    if s.len() >= 1 && (s[0] == '+' || s[0] == '-') {
        let rest = s.skip(1);
        let digits = if rest.len() >= 1 && rest.last() == 'd' {
            rest.drop_last()
        } else {
            rest
        };
        match digits_value(digits) {
            Some(n) => if s[0] == '-' {
                Some(-n)
            } else {
                Some(n)
            },
            None => None,
        }
    } else {
        None
    }
}

/// The signed day offset of a Japanese suffix token: `N日後` lies N days
/// ahead, `N日前` N days back.
pub open spec fn japanese_offset(s: Seq<char>) -> Option<int> {
    if s.len() >= 2 && s[s.len() - 2] == '日' && s[s.len() - 1] == '後' {
        digits_value(trim_of(s.subrange(0, s.len() - 2)))
    } else if s.len() >= 2 && s[s.len() - 2] == '日' && s[s.len() - 1] == '前' {
        match digits_value(trim_of(s.subrange(0, s.len() - 2))) {
            Some(n) => Some(-n),
            None => None,
        }
    } else {
        None
    }
}

/// The signed day offset a relative-day token denotes, over the full chain
/// of grammars: exact keywords in Japanese and English (ASCII
/// case-insensitive), the English phrase, the signed shorthand, and the
/// Japanese suffix forms.
pub open spec fn relative_day_offset(s: Seq<char>) -> Option<int> {
    let t = trim_of(s);
    let l = lower_seq(t);
    if t.len() == 0 {
        None
    } else if t == seq!['今', '日'] {
        Some(0)
    } else if t == seq!['明', '日'] {
        Some(1)
    } else if t == seq!['昨', '日'] {
        Some(-1)
    } else if l == seq!['t', 'o', 'd', 'a', 'y'] {
        Some(0)
    } else if l == seq!['t', 'o', 'm', 'o', 'r', 'r', 'o', 'w'] {
        Some(1)
    } else if l == seq!['y', 'e', 's', 't', 'e', 'r', 'd', 'a', 'y'] {
        Some(-1)
    } else if english_offset(l) is Some {
        english_offset(l)
    } else if symbol_offset(l) is Some {
        symbol_offset(l)
    } else {
        japanese_offset(t)
    }
}

/// The day number a date token denotes against a base date: a strict
/// `YYYY-MM-DD` date stands for itself; otherwise a relative-day token moves
/// the base.  None when no grammar matches or the move leaves the
/// representable dates.
pub open spec fn date_token_index(s: Seq<char>, base: Date) -> Option<int> {
    match strict_date(s) {
        Some(d) => Some(d.day_index()),
        None => match relative_day_offset(s) {
            Some(k) => if 0 <= base.day_index() + k <= max_date().day_index() {
                Some(base.day_index() + k)
            } else {
                None
            },
            None => None,
        },
    }
}

/// Matches the English relative phrase; mirrors `english_offset`.
pub fn parse_english_relative(input: &str) -> (r: Option<i64>)
    ensures
        r matches Some(n) ==> english_offset(input@) == Some(n as int),
        r is None ==> english_offset(input@) is None,
{
    let v = chars_of(input);
    english_rel(v.as_slice())
}

fn english_rel(v: &[char]) -> (r: Option<i64>)
    ensures
        r matches Some(n) ==> english_offset(v@) == Some(n as int),
        r is None ==> english_offset(v@) is None,
{
    if v.len() < 3 {
        return None;
    }
    let c0 = *vstd::slice::slice_index_get(v, 0);
    let c1 = *vstd::slice::slice_index_get(v, 1);
    let c2 = *vstd::slice::slice_index_get(v, 2);
    if !(c0 == 'i' && c1 == 'n' && c2 == ' ') {
        proof {
            assert(v@.subrange(0, 3) != seq!['i', 'n', ' ']);
        }
        return None;
    }
    proof {
        assert(v@.subrange(0, 3) =~= seq!['i', 'n', ' ']);
    }
    let rest = trim_chars(slice_subrange(v, 3, v.len()));
    let n = rest.len();
    if n >= 5 {
        let s0 = rest[n - 5];
        let s1 = rest[n - 4];
        let s2 = rest[n - 3];
        let s3 = rest[n - 2];
        let s4 = rest[n - 1];
        if s0 == ' ' && s1 == 'd' && s2 == 'a' && s3 == 'y' && s4 == 's' {
            proof {
                assert(rest@.subrange(n - 5, n as int) =~= seq![' ', 'd', 'a', 'y', 's']);
            }
            let num = trim_chars(slice_subrange(rest.as_slice(), 0, n - 5));
            return parse_digits(num.as_slice());
        }
        proof {
            assert(rest@.subrange(n - 5, n as int) != seq![' ', 'd', 'a', 'y', 's']);
        }
    }
    if n >= 4 {
        let s0 = rest[n - 4];
        let s1 = rest[n - 3];
        let s2 = rest[n - 2];
        let s3 = rest[n - 1];
        if s0 == ' ' && s1 == 'd' && s2 == 'a' && s3 == 'y' {
            proof {
                assert(rest@.subrange(n - 4, n as int) =~= seq![' ', 'd', 'a', 'y']);
            }
            let num = trim_chars(slice_subrange(rest.as_slice(), 0, n - 4));
            return parse_digits(num.as_slice());
        }
        proof {
            assert(rest@.subrange(n - 4, n as int) != seq![' ', 'd', 'a', 'y']);
        }
    }
    None
}

/// Matches the signed shorthand; mirrors `symbol_offset`.
pub fn parse_symbol_relative(input: &str) -> (r: Option<i64>)
    ensures
        r matches Some(n) ==> symbol_offset(input@) == Some(n as int),
        r is None ==> symbol_offset(input@) is None,
{
    let v = chars_of(input);
    symbol_rel(v.as_slice())
}

fn symbol_rel(v: &[char]) -> (r: Option<i64>)
    ensures
        r matches Some(n) ==> symbol_offset(v@) == Some(n as int),
        r is None ==> symbol_offset(v@) is None,
{
    if v.len() == 0 {
        return None;
    }
    let sign = *vstd::slice::slice_index_get(v, 0);
    if !(sign == '+' || sign == '-') {
        return None;
    }
    let mut hi = v.len();
    if hi >= 2 && *vstd::slice::slice_index_get(v, hi - 1) == 'd' {
        hi = hi - 1;
        proof {
            assert(v@.skip(1).drop_last() =~= v@.subrange(1, hi as int));
        }
    } else {
        proof {
            assert(v@.skip(1) =~= v@.subrange(1, hi as int));
        }
    }
    let digits = slice_subrange(v, 1, hi);
    match parse_digits(digits) {
        Some(n) => {
            if sign == '-' {
                Some(-n)
            } else {
                Some(n)
            }
        },
        None => None,
    }
}

/// Matches the Japanese suffix forms; mirrors `japanese_offset`.
pub fn parse_japanese_relative(input: &str) -> (r: Option<i64>)
    ensures
        r matches Some(n) ==> japanese_offset(input@) == Some(n as int),
        r is None ==> japanese_offset(input@) is None,
{
    let v = chars_of(input);
    japanese_rel(v.as_slice())
}

fn japanese_rel(v: &[char]) -> (r: Option<i64>)
    ensures
        r matches Some(n) ==> japanese_offset(v@) == Some(n as int),
        r is None ==> japanese_offset(v@) is None,
{
    if v.len() < 2 {
        return None;
    }
    let n = v.len();
    let pen = *vstd::slice::slice_index_get(v, n - 2);
    let last = *vstd::slice::slice_index_get(v, n - 1);
    if pen == '日' && last == '後' {
        let num = trim_chars(slice_subrange(v, 0, n - 2));
        return parse_digits(num.as_slice());
    }
    if pen == '日' && last == '前' {
        let num = trim_chars(slice_subrange(v, 0, n - 2));
        return match parse_digits(num.as_slice()) {
            Some(k) => Some(-k),
            None => None,
        };
    }
    None
}

/// Resolves a relative-day token against a base date.  Succeeds exactly when
/// a grammar matches and the moved date stays representable; the result then
/// lies `relative_day_offset` days from the base.
pub fn parse_relative_day_with_base(input: &str, base: Date) -> (r: Option<Date>)
    requires
        base.wf(),
    ensures
        relative_day_offset(input@) is None ==> r is None,
        relative_day_offset(input@) matches Some(k) ==> ({
            if 0 <= base.day_index() + k <= max_date().day_index() {
                r matches Some(d) && d.wf() && d.day_index() == base.day_index() + k
            } else {
                r is None
            }
        }),
{
    let cs = chars_of(input);
    let t = trim_chars(cs.as_slice());
    if t.len() == 0 {
        return None;
    }
    let kyou = vec!['今', '日'];
    let asu = vec!['明', '日'];
    let kinou = vec!['昨', '日'];
    if chars_eq(t.as_slice(), kyou.as_slice()) {
        return offset_date(&base, 0);
    }
    if chars_eq(t.as_slice(), asu.as_slice()) {
        return offset_date(&base, 1);
    }
    if chars_eq(t.as_slice(), kinou.as_slice()) {
        return offset_date(&base, -1);
    }
    let l = to_lower_chars(t.as_slice());
    let today = vec!['t', 'o', 'd', 'a', 'y'];
    let tomorrow = vec!['t', 'o', 'm', 'o', 'r', 'r', 'o', 'w'];
    let yesterday = vec!['y', 'e', 's', 't', 'e', 'r', 'd', 'a', 'y'];
    if chars_eq(l.as_slice(), today.as_slice()) {
        return offset_date(&base, 0);
    }
    if chars_eq(l.as_slice(), tomorrow.as_slice()) {
        return offset_date(&base, 1);
    }
    if chars_eq(l.as_slice(), yesterday.as_slice()) {
        return offset_date(&base, -1);
    }
    if let Some(k) = english_rel(l.as_slice()) {
        return offset_date(&base, k);
    }
    if let Some(k) = symbol_rel(l.as_slice()) {
        return offset_date(&base, k);
    }
    if let Some(k) = japanese_rel(t.as_slice()) {
        return offset_date(&base, k);
    }
    None
}

/// Resolves a date argument: a strict `YYYY-MM-DD` date stands for itself,
/// otherwise the relative-day grammars move the base date.  Fails with an
/// error naming the literal input when neither applies or the move leaves
/// the representable dates.
pub fn parse_date(input: &str, base: Date) -> (r: Result<Date, TimeError>)
    requires
        base.wf(),
    ensures
        r matches Ok(d) ==> d.wf() && date_token_index(input@, base) == Some(d.day_index()),
        r matches Err(e) ==> date_token_index(input@, base) is None && (e matches
            TimeError::InvalidDate { literal } && literal@ == input@),
{
    let cs = chars_of(input);
    if let Some(d) = parse_strict_date(cs.as_slice()) {
        return Ok(d);
    }
    if let Some(d) = parse_relative_day_with_base(input, base) {
        return Ok(d);
    }
    Err(TimeError::InvalidDate { literal: input.to_owned() })
}

/// Law: for any base date with room ahead, `tomorrow` resolves one day past
/// the base, and `+2d` and `2日後` both resolve two days past the base.
/// Resolution is a function of the token and the base alone.
pub proof fn lemma_relative_day_agreement(base: Date)
    requires
        base.wf(),
        base.day_index() + 2 <= max_date().day_index(),
    ensures
        date_token_index(seq!['t', 'o', 'm', 'o', 'r', 'r', 'o', 'w'], base) == Some(
            base.day_index() + 1,
        ),
        date_token_index(seq!['+', '2', 'd'], base) == Some(base.day_index() + 2),
        date_token_index(seq!['2', '日', '後'], base) == Some(base.day_index() + 2),
{
    crate::dates::lemma_day_index_bounds(base);
    let tom = seq!['t', 'o', 'm', 'o', 'r', 'r', 'o', 'w'];
    assert(trim_of(tom) == tom);
    assert(lower_seq(tom) =~= tom);
    assert(relative_day_offset(tom) == Some(1int));
    let plus = seq!['+', '2', 'd'];
    assert(trim_of(plus) == plus);
    assert(lower_seq(plus) =~= plus);
    assert(english_offset(plus) is None) by {
        assert(plus.subrange(0, 3) =~= plus);
    }
    assert(symbol_offset(plus) == Some(2int)) by {
        let digits = plus.skip(1).drop_last();
        assert(digits =~= seq!['2']);
        assert(digits.drop_last() =~= Seq::<char>::empty());
        assert(crate::text::digits_num(Seq::<char>::empty()) == 0);
        assert(crate::text::digits_num(digits) == 2);
    }
    assert(relative_day_offset(plus) == Some(2int));
    let jp = seq!['2', '日', '後'];
    assert(trim_of(jp) == jp);
    assert(lower_seq(jp) =~= jp);
    assert(english_offset(lower_seq(jp)) is None) by {
        assert(lower_seq(jp).subrange(0, 3) =~= jp);
    }
    assert(japanese_offset(jp) == Some(2int)) by {
        let digits = jp.subrange(0, 1);
        assert(digits =~= seq!['2']);
        assert(trim_of(digits) == digits);
        assert(digits.drop_last() =~= Seq::<char>::empty());
        assert(crate::text::digits_num(Seq::<char>::empty()) == 0);
        assert(crate::text::digits_num(digits) == 2);
    }
    assert(relative_day_offset(jp) == Some(2int));
}

} // verus!
