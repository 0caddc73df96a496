//! Number syntax: the texts `str::parse` accepts for `i64` and for floating-point
//! types, and the conversion of byte ranges to text.
use vstd::prelude::*;

use crate::text::{
    all_digits, all_digits_in, ascii_chars, chars_of, digits_up_to, digits_value, first_from,
    lemma_first_from_bounds, lower_seq, lower_vec, parse_i64, str_eq_vec,
};

verus! {

pub open spec fn is_sign(c: char) -> bool {
    c == '+' || c == '-'
}

/// `s` without a leading sign.
pub open spec fn unsigned_part(s: Seq<char>) -> Seq<char> {
    if s.len() > 0 && is_sign(s[0]) {
        s.drop_first()
    } else {
        s
    }
}

/// Exponent digits after `e`/`E`: an optional sign, then at least one digit.
pub open spec fn exponent_ok(x: Seq<char>) -> bool {
    let y = unsigned_part(x);
    y.len() > 0 && all_digits(y)
}

pub open spec fn dot_pos(m: Seq<char>) -> int {
    first_from(m, |c: char| c == '.', 0)
}

/// Mantissa: digits with at most one `.`, and at least one digit.
pub open spec fn mantissa_ok(m: Seq<char>) -> bool {
    let d = dot_pos(m);
    if d == m.len() {
        m.len() > 0 && all_digits(m)
    } else {
        all_digits(m.subrange(0, d)) && all_digits(m.subrange(d + 1, m.len() as int)) && m.len()
            > 1
    }
}

pub open spec fn is_exp_mark(c: char) -> bool {
    c == 'e' || c == 'E'
}

/// A decimal number: mantissa, then optionally `e`/`E` and an exponent.
pub open spec fn decimal_ok(t: Seq<char>) -> bool {
    let e = first_from(t, |c: char| is_exp_mark(c), 0);
    mantissa_ok(t.subrange(0, e)) && (e == t.len() || exponent_ok(t.subrange(e + 1, t.len() as int)))
}

/// The texts a floating-point `str::parse` accepts: an optional sign, then `inf`,
/// `infinity` or `nan` in any ASCII case, or a decimal number.
pub open spec fn float_literal(s: Seq<char>) -> bool {
    let t = unsigned_part(s);
    let l = lower_seq(t);
    l == "inf"@ || l == "infinity"@ || l == "nan"@ || decimal_ok(t)
}

/// The characters `v[lo..hi]`.
pub fn sub_vec(v: &Vec<char>, lo: usize, hi: usize) -> (r: Vec<char>)
    requires
        lo <= hi <= v@.len(),
    ensures
        r@ == v@.subrange(lo as int, hi as int),
{
    let mut r: Vec<char> = Vec::new();
    let mut i: usize = lo;
    while i < hi
        invariant
            lo <= i <= hi <= v@.len(),
            r@ == v@.subrange(lo as int, i as int),
        decreases hi - i,
    {
        r.push(v[i]);
        i = i + 1;
        assert(r@ =~= v@.subrange(lo as int, i as int));
    }
    r
}

/// The bytes `b[lo..hi]`, each taken as the character with the same code.
pub fn ascii_vec(b: &[u8], lo: usize, hi: usize) -> (v: Vec<char>)
    requires
        lo <= hi <= b@.len(),
    ensures
        v@ == ascii_chars(b@.subrange(lo as int, hi as int)),
{
    let mut v: Vec<char> = Vec::new();
    let mut i: usize = lo;
    while i < hi
        invariant
            lo <= i <= hi <= b@.len(),
            v@ == ascii_chars(b@.subrange(lo as int, i as int)),
        decreases hi - i,
    {
        v.push(b[i] as char);
        i = i + 1;
        assert(v@ =~= ascii_chars(b@.subrange(lo as int, i as int)));
    }
    v
}

/// `str::parse::<i64>` of the text `v`.
pub fn i64_of(v: &Vec<char>) -> (r: Option<i64>)
    ensures
        r == parse_i64(v@),
{
    let n = v.len();
    let neg = n > 0 && v[0] == '-';
    let start: usize = if n > 0 && (v[0] == '+' || v[0] == '-') {
        1
    } else {
        0
    };
    assert(v@.subrange(start as int, n as int) =~= (if n > 0 && (v@[0] == '+' || v@[0] == '-') {
        v@.drop_first()
    } else {
        v@
    }));
    if start >= n || !all_digits_in(v, start, n) {
        return None;
    }
    if neg {
        match digits_up_to(v, start, n, 9223372036854775808u64) {
            Some(m) => {
                if m == 9223372036854775808u64 {
                    Some(i64::MIN)
                } else {
                    Some(-(m as i64))
                }
            },
            None => None,
        }
    } else {
        match digits_up_to(v, start, n, 9223372036854775807u64) {
            Some(m) => Some(m as i64),
            None => None,
        }
    }
}

fn dot_position(v: &Vec<char>) -> (r: usize)
    ensures
        r == dot_pos(v@),
        r <= v@.len(),
{
    proof {
        lemma_first_from_bounds(v@, |c: char| c == '.', 0);
    }
    let mut i: usize = 0;
    while i < v.len()
        invariant
            0 <= i <= v@.len(),
            dot_pos(v@) == first_from(v@, |c: char| c == '.', i as int),
        decreases v.len() - i,
    {
        if v[i] == '.' {
            return i;
        }
        i = i + 1;
    }
    i
}

fn exp_position(v: &Vec<char>) -> (r: usize)
    ensures
        r == first_from(v@, |c: char| is_exp_mark(c), 0),
        r <= v@.len(),
{
    proof {
        lemma_first_from_bounds(v@, |c: char| is_exp_mark(c), 0);
    }
    let mut i: usize = 0;
    while i < v.len()
        invariant
            0 <= i <= v@.len(),
            first_from(v@, |c: char| is_exp_mark(c), 0) == first_from(
                v@,
                |c: char| is_exp_mark(c),
                i as int,
            ),
        decreases v.len() - i,
    {
        if v[i] == 'e' || v[i] == 'E' {
            return i;
        }
        i = i + 1;
    }
    i
}

fn unsigned_start(v: &Vec<char>) -> (r: usize)
    ensures
        r <= v@.len(),
        v@.subrange(r as int, v@.len() as int) == unsigned_part(v@),
{
    if v.len() > 0 && (v[0] == '+' || v[0] == '-') {
        assert(v@.subrange(1, v@.len() as int) =~= v@.drop_first());
        1
    } else {
        assert(v@.subrange(0, v@.len() as int) =~= v@);
        0
    }
}

fn mantissa_ok_vec(m: &Vec<char>) -> (r: bool)
    ensures
        r == mantissa_ok(m@),
{
    let d = dot_position(m);
    assert(m@.subrange(0, m@.len() as int) =~= m@);
    if d == m.len() {
        m.len() > 0 && all_digits_in(m, 0, m.len())
    } else {
        all_digits_in(m, 0, d) && all_digits_in(m, d + 1, m.len()) && m.len() > 1
    }
}

fn decimal_ok_vec(t: &Vec<char>) -> (r: bool)
    ensures
        r == decimal_ok(t@),
{
    let e = exp_position(t);
    let m = sub_vec(t, 0, e);
    if !mantissa_ok_vec(&m) {
        return false;
    }
    if e == t.len() {
        return true;
    }
    let x = sub_vec(t, e + 1, t.len());
    let s = unsigned_start(&x);
    s < x.len() && all_digits_in(&x, s, x.len())
}

/// Whether the text `v` parses as a floating-point number.
pub fn is_float_literal(v: &Vec<char>) -> (r: bool)
    ensures
        r == float_literal(v@),
{
    let s = unsigned_start(v);
    let t = sub_vec(v, s, v.len());
    let l = lower_vec(&t);
    if str_eq_vec(&l, &chars_of("inf")) || str_eq_vec(&l, &chars_of("infinity")) || str_eq_vec(
        &l,
        &chars_of("nan"),
    ) {
        return true;
    }
    decimal_ok_vec(&t)
}

} // verus!
