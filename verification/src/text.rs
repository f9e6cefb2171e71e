//! Character-level helpers shared by the parsers and renderers: collecting a
//! string's characters, ASCII digits and case folding, trimming, and building
//! strings character by character.

use vstd::prelude::*;
use vstd::string::StrSliceExecFns;

verus! {

pub open spec fn is_digit(c: char) -> bool {
    '0' <= c && c <= '9'
}

pub open spec fn digit_val(c: char) -> int {
    c as int - '0' as int
}

pub open spec fn digit_char(k: int) -> char {
    ((('0' as u32) + k) as u8) as char
}

pub open spec fn is_space(c: char) -> bool {
    c == ' ' || c == '\t' || c == '\n' || c == '\r'
}

pub open spec fn is_ascii_upper(c: char) -> bool {
    'A' <= c && c <= 'Z'
}

pub open spec fn lower_char(c: char) -> char {
    if is_ascii_upper(c) {
        (((c as u32) + 32) as u8) as char
    } else {
        c
    }
}

pub open spec fn lower_seq(s: Seq<char>) -> Seq<char> {
    s.map_values(|c: char| lower_char(c))
}

/// Leading whitespace removed.
pub open spec fn trim_front(s: Seq<char>) -> Seq<char>
    decreases s.len(),
{
    if s.len() > 0 && is_space(s[0]) {
        trim_front(s.drop_first())
    } else {
        s
    }
}

/// Trailing whitespace removed.
pub open spec fn trim_back(s: Seq<char>) -> Seq<char>
    decreases s.len(),
{
    if s.len() > 0 && is_space(s.last()) {
        trim_back(s.drop_last())
    } else {
        s
    }
}

/// Whitespace removed from both ends.
pub open spec fn trim_of(s: Seq<char>) -> Seq<char> {
    trim_back(trim_front(s))
}

/// The non-negative integer that a non-empty run of ASCII digits denotes, or
/// none when the text is empty, holds a non-digit, or denotes a value beyond
/// `i64::MAX`.
pub open spec fn digits_value(s: Seq<char>) -> Option<int> {
    if s.len() > 0 && (forall|i: int| 0 <= i < s.len() ==> is_digit(s[i])) {
        if digits_num(s) <= i64::MAX {
            Some(digits_num(s))
        } else {
            None
        }
    } else {
        None
    }
}

/// The value of a digit run, most significant first.
pub open spec fn digits_num(s: Seq<char>) -> int
    decreases s.len(),
{
    if s.len() == 0 {
        0
    } else {
        digits_num(s.drop_last()) * 10 + digit_val(s.last())
    }
}

/// Collects a string slice's characters.
pub fn chars_of(s: &str) -> (v: Vec<char>)
    ensures
        v@ == s@,
{
    let n = s.unicode_len();
    let mut v: Vec<char> = Vec::new();
    let mut i: usize = 0;
    while i < n
        invariant
            i <= n,
            n == s@.len(),
            v@ == s@.subrange(0, i as int),
        decreases n - i,
    {
        v.push(s.get_char(i));
        i = i + 1;
        proof {
            assert(v@ =~= s@.subrange(0, i as int));
        }
    }
    proof {
        assert(v@ =~= s@);
    }
    v
}

/// Relies on `String::push`: appends exactly the one character.
#[verifier::external_body]
pub(crate) fn push_char(s: &mut String, c: char)
    ensures
        final (s)@ == old(s)@.push(c),
{
    s.push(c);
}

fn space(c: char) -> (r: bool)
    ensures
        r == is_space(c),
{
    c == ' ' || c == '\t' || c == '\n' || c == '\r'
}

pub fn digit(c: char) -> (r: bool)
    ensures
        r == is_digit(c),
{
    '0' <= c && c <= '9'
}

/// Folds one ASCII uppercase letter; leaves every other character alone.
pub fn to_lower_char(c: char) -> (r: char)
    ensures
        r == lower_char(c),
{
    if 'A' <= c && c <= 'Z' {
        (((c as u32) + 32) as u8) as char
    } else {
        c
    }
}

/// ASCII case folding over a character vector.
pub fn to_lower_chars(v: &[char]) -> (r: Vec<char>)
    ensures
        r@ == lower_seq(v@),
{
    let mut r: Vec<char> = Vec::new();
    let mut i: usize = 0;
    while i < v.len()
        invariant
            i <= v@.len(),
            r@ == lower_seq(v@.subrange(0, i as int)),
        decreases v@.len() - i,
    {
        r.push(to_lower_char(v[i]));
        i = i + 1;
        proof {
            assert(lower_seq(v@.subrange(0, i as int)) =~= lower_seq(
                v@.subrange(0, i as int - 1),
            ).push(lower_char(v@[i as int - 1])));
        }
    }
    proof {
        assert(v@.subrange(0, v@.len() as int) =~= v@);
    }
    r
}

/// Trims whitespace from both ends of a character vector.
pub fn trim_chars(v: &[char]) -> (r: Vec<char>)
    ensures
        r@ == trim_of(v@),
{
    proof {
        assert(v@.skip(0) =~= v@);
    }
    let mut lo: usize = 0;
    while lo < v.len() && space(v[lo])
        invariant
            lo <= v@.len(),
            trim_front(v@) == trim_front(v@.skip(lo as int)),
        decreases v@.len() - lo,
    {
        proof {
            assert(v@.skip(lo as int).drop_first() =~= v@.skip(lo as int + 1));
        }
        lo = lo + 1;
    }
    proof {
        if lo < v@.len() {
            assert(trim_front(v@.skip(lo as int)) == v@.skip(lo as int));
        } else {
            assert(v@.skip(lo as int) =~= Seq::<char>::empty());
        }
    }
    let ghost s1 = v@.skip(lo as int);
    let mut hi: usize = v.len();
    while hi > lo && space(v[hi - 1])
        invariant
            lo <= hi <= v@.len(),
            s1 == v@.skip(lo as int),
            trim_front(v@) == s1,
            trim_back(s1) == trim_back(v@.subrange(lo as int, hi as int)),
        decreases hi,
    {
        proof {
            let cur = v@.subrange(lo as int, hi as int);
            assert(cur.last() == v@[hi - 1]);
            assert(cur.drop_last() =~= v@.subrange(lo as int, hi as int - 1));
        }
        hi = hi - 1;
    }
    proof {
        let cur = v@.subrange(lo as int, hi as int);
        if hi > lo {
            assert(trim_back(cur) == cur);
        } else {
            assert(cur =~= Seq::<char>::empty());
        }
    }
    let mut r: Vec<char> = Vec::new();
    let mut i: usize = lo;
    while i < hi
        invariant
            lo <= i <= hi <= v@.len(),
            r@ == v@.subrange(lo as int, i as int),
        decreases hi - i,
    {
        r.push(v[i]);
        i = i + 1;
        proof {
            assert(v@.subrange(lo as int, i as int) =~= v@.subrange(lo as int, i as int - 1).push(
                v@[i as int - 1],
            ));
        }
    }
    r
}

/// Decides equality of two character slices' contents.
pub fn chars_eq(a: &[char], b: &[char]) -> (r: bool)
    ensures
        r == (a@ == b@),
{
    if a.len() != b.len() {
        proof {
            assert(a@.len() != b@.len());
        }
        return false;
    }
    let mut i: usize = 0;
    while i < a.len()
        invariant
            i <= a@.len(),
            a@.len() == b@.len(),
            forall|j: int| 0 <= j < i ==> a@[j] == b@[j],
        decreases a@.len() - i,
    {
        if *vstd::slice::slice_index_get(a, i) != *vstd::slice::slice_index_get(b, i) {
            proof {
                assert(a@[i as int] != b@[i as int]);
            }
            return false;
        }
        i = i + 1;
    }
    proof {
        assert(a@ =~= b@);
    }
    true
}

/// Parses a non-empty all-digit run into its value; mirrors `digits_value`.
pub fn parse_digits(v: &[char]) -> (r: Option<i64>)
    ensures
        r matches Some(n) ==> n >= 0 && digits_value(v@) == Some(n as int),
        r is None ==> digits_value(v@) is None,
{
    if v.len() == 0 {
        return None;
    }
    let mut acc: i64 = 0;
    let mut i: usize = 0;
    while i < v.len()
        invariant
            i <= v@.len(),
            0 <= acc,
            forall|j: int| 0 <= j < i ==> is_digit(v@[j]),
            acc == digits_num(v@.subrange(0, i as int)),
        decreases v@.len() - i,
    {
        let c = v[i];
        if !digit(c) {
            return None;
        }
        let d = (c as u32 - '0' as u32) as i64;
        if acc > 922337203685477580 || (acc == 922337203685477580 && d > 7) {
            proof {
                assert(v@.subrange(0, i as int + 1).drop_last() =~= v@.subrange(0, i as int));
                assert(digits_num(v@.subrange(0, i as int + 1)) > i64::MAX);
                if forall|j: int| 0 <= j < v@.len() ==> is_digit(v@[j]) {
                    lemma_digits_num_prefix_mono(v@, i as int + 1, v@.len() as int);
                    assert(v@.subrange(0, v@.len() as int) =~= v@);
                }
            }
            return None;
        }
        acc = acc * 10 + d;
        i = i + 1;
        proof {
            assert(v@.subrange(0, i as int).drop_last() =~= v@.subrange(0, i as int - 1));
        }
    }
    proof {
        assert(v@.subrange(0, v@.len() as int) =~= v@);
    }
    Some(acc)
}

/// Once a digit-run prefix overflows, the whole run overflows.
proof fn lemma_digits_num_prefix_mono(s: Seq<char>, k: int, n: int)
    requires
        0 <= k <= n <= s.len(),
        forall|i: int| 0 <= i < n ==> is_digit(s[i]),
    ensures
        digits_num(s.subrange(0, k)) <= digits_num(s.subrange(0, n)),
    decreases n - k,
{
    if k < n {
        lemma_digits_num_prefix_mono(s, k, n - 1);
        let p = s.subrange(0, n);
        assert(p.drop_last() =~= s.subrange(0, n - 1));
        assert(digits_num(p) == digits_num(s.subrange(0, n - 1)) * 10 + digit_val(s[n - 1]));
        lemma_digits_num_nonneg(s.subrange(0, n - 1));
        assert(digits_num(s.subrange(0, n - 1)) * 10 >= digits_num(s.subrange(0, n - 1))) by (nonlinear_arith)
            requires
                digits_num(s.subrange(0, n - 1)) >= 0,
        ;
    }
}

proof fn lemma_digits_num_nonneg(s: Seq<char>)
    requires
        forall|i: int| 0 <= i < s.len() ==> is_digit(s[i]),
    ensures
        digits_num(s) >= 0,
    decreases s.len(),
{
    if s.len() > 0 {
        assert(s.drop_last() =~= s.subrange(0, s.len() - 1));
        lemma_digits_num_nonneg(s.drop_last());
        assert(digits_num(s.drop_last()) * 10 >= 0) by (nonlinear_arith)
            requires
                digits_num(s.drop_last()) >= 0,
        ;
    }
}

} // verus!
