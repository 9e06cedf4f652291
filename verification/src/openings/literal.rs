//! Literals in predicates.

use crate::text::{chars_of, find_char, index_of, lower, lowered, same, string_range};
use vstd::prelude::*;

verus! {

pub open spec fn is_digit(c: char) -> bool {
    '0' <= c <= '9'
}

pub open spec fn only_digits(s: Seq<char>) -> bool {
    forall|i: int| 0 <= i < s.len() ==> is_digit(#[trigger] s[i])
}

/// The number that decimal digits write.
pub open spec fn digits_value(s: Seq<char>) -> int
    decreases s.len(),
{
    if s.len() == 0 {
        0
    } else {
        digits_value(s.drop_last()) * 10 + (s.last() as int - 48)
    }
}

/// How many characters of `s` are a leading sign.
pub open spec fn sign_len(s: Seq<char>) -> int {
    if s.len() > 0 && (s[0] == '+' || s[0] == '-') {
        1
    } else {
        0
    }
}

/// The 64-bit whole number that `s` writes: digits behind an optional sign.
pub open spec fn int_literal(s: Seq<char>) -> Option<int> {
    let d = s.skip(sign_len(s));
    let v = if s.len() > 0 && s[0] == '-' {
        -digits_value(d)
    } else {
        digits_value(d)
    };
    if d.len() > 0 && only_digits(d) && i64::MIN <= v <= i64::MAX {
        Some(v)
    } else {
        None
    }
}

fn digits_from(v: &Vec<char>, from: usize, to: usize) -> (r: bool)
    requires
        from <= to <= v.len(),
    ensures
        r == only_digits(v@.subrange(from as int, to as int)),
{
    let mut i: usize = from;
    while i < to
        invariant
            from <= i <= to <= v.len(),
            forall|j: int| from <= j < i ==> is_digit(#[trigger] v@[j]),
        decreases to - i,
    {
        let c = v[i];
        if !('0' <= c && c <= '9') {
            assert(!is_digit(v@.subrange(from as int, to as int)[i - from]));
            return false;
        }
        i += 1;
    }
    true
}

fn sign_width(v: &Vec<char>) -> (n: usize)
    ensures
        n == sign_len(v@),
        n <= v.len(),
{
    if v.len() > 0 && (v[0] == '+' || v[0] == '-') {
        1
    } else {
        0
    }
}

const LIMIT: u128 = 9223372036854775808;

pub fn parse_int(s: &str) -> (r: Option<i64>)
    ensures
        match r {
            Some(n) => int_literal(s@) == Some(n as int),
            None => int_literal(s@) is None,
        },
{
    let v = chars_of(s);
    let start = sign_width(&v);
    let ghost d = s@.skip(start as int);
    assert(v@.subrange(start as int, v@.len() as int) =~= d);
    if start == v.len() || !digits_from(&v, start, v.len()) {
        return None;
    }
    let mut acc: u128 = 0;
    let mut big = false;
    let mut i: usize = start;
    assert(d.take(0) =~= seq![]);
    while i < v.len()
        invariant
            start <= i <= v.len(),
            v@ == s@,
            d == s@.skip(start as int),
            only_digits(d),
            !big ==> acc == digits_value(d.take(i - start)) && acc <= LIMIT,
            big ==> digits_value(d.take(i - start)) > LIMIT,
        decreases v.len() - i,
    {
        let c = v[i];
        let ghost k = i - start;
        assert(d[k] == c);
        assert(is_digit(d[k]));
        assert(d.take(k + 1).drop_last() =~= d.take(k));
        assert(d.take(k + 1).last() == c);
        if !big {
            acc = acc * 10 + (c as u32 - 48) as u128;
            if acc > LIMIT {
                big = true;
            }
        }
        i += 1;
    }
    assert(d.take(d.len() as int) =~= d);
    let negative = v[0] == '-';
    if big {
        None
    } else if negative {
        Some((-(acc as i128)) as i64)
    } else if acc < LIMIT {
        Some(acc as i64)
    } else {
        None
    }
}

/// A mantissa: digits with at most one point among them, at least one digit.
pub open spec fn is_mantissa(m: Seq<char>) -> bool {
    let p = index_of(m, '.');
    if p < m.len() {
        only_digits(m.take(p)) && only_digits(m.skip(p + 1)) && m.len() > 1
    } else {
        only_digits(m) && m.len() > 0
    }
}

/// A decimal number in small letters: a mantissa, and an exponent behind `e`.
pub open spec fn is_decimal(t: Seq<char>) -> bool {
    let k = index_of(t, 'e');
    if k < t.len() {
        let e = t.skip(k + 1);
        is_mantissa(t.take(k)) && only_digits(e.skip(sign_len(e))) && e.len() > sign_len(e)
    } else {
        is_mantissa(t)
    }
}

/// Whether `s` writes a floating point number: a decimal number, `inf`, `infinity` or `nan`, in
/// letters of either case, behind an optional sign.
pub open spec fn is_float_numeral(s: Seq<char>) -> bool {
    let t = lower(s.skip(sign_len(s)));
    t == "inf"@ || t == "infinity"@ || t == "nan"@ || is_decimal(t)
}

fn mantissa_from(v: &Vec<char>) -> (r: bool)
    ensures
        r == is_mantissa(v@),
{
    let p = find_char(v, '.');
    proof {
        crate::text::lemma_index_of(v@, '.');
    }
    if p < v.len() {
        assert(v@.subrange(0, p as int) =~= v@.take(p as int));
        assert(v@.subrange(p + 1, v@.len() as int) =~= v@.skip(p + 1));
        digits_from(v, 0, p) && digits_from(v, p + 1, v.len()) && v.len() > 1
    } else {
        assert(v@.subrange(0, v@.len() as int) =~= v@);
        digits_from(v, 0, v.len()) && v.len() > 0
    }
}

fn decimal_from(t: &str) -> (r: bool)
    ensures
        r == is_decimal(t@),
{
    let v = chars_of(t);
    let k = find_char(&v, 'e');
    if k < v.len() {
        assert(v@.subrange(0, k as int) =~= v@.take(k as int));
        assert(v@.subrange(k + 1, v@.len() as int) =~= v@.skip(k + 1));
        let head = chars_of(string_range(&v, 0, k).as_str());
        let e = chars_of(string_range(&v, k + 1, v.len()).as_str());
        let n = sign_width(&e);
        assert(e@.subrange(n as int, e@.len() as int) =~= e@.skip(n as int));
        mantissa_from(&head) && digits_from(&e, n, e.len()) && e.len() > n
    } else {
        mantissa_from(&v)
    }
}

pub fn float_numeral(s: &str) -> (r: bool)
    ensures
        r == is_float_numeral(s@),
{
    let v = chars_of(s);
    let n = sign_width(&v);
    assert(v@.subrange(n as int, v@.len() as int) =~= v@.skip(n as int));
    let rest = string_range(&v, n, v.len());
    let t = lowered(rest.as_str());
    same(t.as_str(), "inf") || same(t.as_str(), "infinity") || same(t.as_str(), "nan")
        || decimal_from(t.as_str())
}

} // verus!
