//! Character and string helpers shared by the routing, streaming and ingest code.
//!
//! Text is modelled as `Seq<char>` (the view of `str` and `String`); byte buffers as
//! `Seq<u8>`. ASCII case mapping, whitespace, searching and decimal conversion are
//! stated here once and reused by every parser of the crate.
use vstd::prelude::*;

verus! {

// ---------------------------------------------------------------------------
// Specifications
// ---------------------------------------------------------------------------
/// ASCII upper-casing of one character (other characters are left alone).
pub open spec fn upper_char(c: char) -> char {
    if 'a' <= c && c <= 'z' {
        ((c as u32) - 32) as char
    } else {
        c
    }
}

/// ASCII lower-casing of one character (other characters are left alone).
pub open spec fn lower_char(c: char) -> char {
    if 'A' <= c && c <= 'Z' {
        ((c as u32) + 32) as char
    } else {
        c
    }
}

pub open spec fn upper_seq(s: Seq<char>) -> Seq<char> {
    Seq::new(s.len(), |i: int| upper_char(s[i]))
}

pub open spec fn lower_seq(s: Seq<char>) -> Seq<char> {
    Seq::new(s.len(), |i: int| lower_char(s[i]))
}

/// ASCII case-insensitive equality, as `str::eq_ignore_ascii_case` computes it.
pub open spec fn eq_ignore_case(a: Seq<char>, b: Seq<char>) -> bool {
    lower_seq(a) == lower_seq(b)
}

/// Unicode `White_Space`, the property `char::is_whitespace` tests.
pub open spec fn is_ws(c: char) -> bool {
    let u = c as u32;
    (0x9 <= u && u <= 0xd) || u == 0x20 || u == 0x85 || u == 0xa0 || u == 0x1680 || (0x2000 <= u
        && u <= 0x200a) || u == 0x2028 || u == 0x2029 || u == 0x202f || u == 0x205f || u == 0x3000
}

pub open spec fn is_digit(c: char) -> bool {
    '0' <= c && c <= '9'
}

/// First position at or after `i` whose element satisfies `p`, or `s.len()`.
pub open spec fn first_from<T>(s: Seq<T>, p: spec_fn(T) -> bool, i: int) -> int
    decreases s.len() - i,
{
    if i < 0 || i >= s.len() {
        s.len() as int
    } else if p(s[i]) {
        i
    } else {
        first_from(s, p, i + 1)
    }
}

/// First position in `[i, end)` whose element satisfies `p`, or `end`.
pub open spec fn first_in<T>(s: Seq<T>, p: spec_fn(T) -> bool, i: int, end: int) -> int
    decreases end - i,
{
    if i < 0 || i >= end || i >= s.len() {
        end
    } else if p(s[i]) {
        i
    } else {
        first_in(s, p, i + 1, end)
    }
}

/// First position of byte `x` in `s[i..end]`, or `end`.
pub open spec fn byte_pos(s: Seq<u8>, x: u8, i: int, end: int) -> int {
    first_in(s, |y: u8| y == x, i, end)
}

/// `first_in` is the first position satisfying `p`, as characterised by `k`.
pub proof fn lemma_first_in_is<T>(s: Seq<T>, p: spec_fn(T) -> bool, i: int, end: int, k: int)
    requires
        0 <= i <= k <= end <= s.len(),
        k < end ==> p(s[k]),
        forall|j: int| i <= j < k ==> !p(#[trigger] s[j]),
    ensures
        first_in(s, p, i, end) == k,
    decreases k - i,
{
    if i < k {
        lemma_first_in_is(s, p, i + 1, end, k);
    }
}

pub proof fn lemma_first_in_bounds<T>(s: Seq<T>, p: spec_fn(T) -> bool, i: int, end: int)
    requires
        0 <= i <= end <= s.len(),
    ensures
        i <= first_in(s, p, i, end) <= end,
        first_in(s, p, i, end) < end ==> p(s[first_in(s, p, i, end)]),
        forall|j: int| i <= j < first_in(s, p, i, end) ==> !p(#[trigger] s[j]),
    decreases end - i,
{
    if i < end && !p(s[i]) {
        lemma_first_in_bounds(s, p, i + 1, end);
    }
}

pub proof fn lemma_byte_pos_is(s: Seq<u8>, x: u8, i: int, end: int, k: int)
    requires
        0 <= i <= k <= end <= s.len(),
        k < end ==> s[k] == x,
        forall|j: int| i <= j < k ==> #[trigger] s[j] != x,
    ensures
        byte_pos(s, x, i, end) == k,
    decreases k - i,
{
    if i < k {
        lemma_byte_pos_is(s, x, i + 1, end, k);
    }
}

pub proof fn lemma_byte_pos_bounds(s: Seq<u8>, x: u8, i: int, end: int)
    requires
        0 <= i <= end <= s.len(),
    ensures
        i <= byte_pos(s, x, i, end) <= end,
        byte_pos(s, x, i, end) < end ==> s[byte_pos(s, x, i, end)] == x,
        forall|j: int| i <= j < byte_pos(s, x, i, end) ==> #[trigger] s[j] != x,
    decreases end - i,
{
    if i < end && s[i] != x {
        lemma_byte_pos_bounds(s, x, i + 1, end);
    }
}

/// First position of `x` in `s`, or `s.len()`.
pub open spec fn pos_of<T>(s: Seq<T>, x: T) -> int {
    first_from(s, |y: T| y == x, 0)
}

/// Last position of `x` in `s`.
pub open spec fn last_pos_of<T>(s: Seq<T>, x: T) -> Option<int>
    decreases s.len(),
{
    if s.len() == 0 {
        None
    } else if s.last() == x {
        Some(s.len() - 1)
    } else {
        last_pos_of(s.drop_last(), x)
    }
}

/// `s` with its leading whitespace removed (`str::trim_start`).
pub open spec fn trim_start(s: Seq<char>) -> Seq<char> {
    s.subrange(first_from(s, |c: char| !is_ws(c), 0), s.len() as int)
}

/// `p` occurs in `h` at position `i`.
pub open spec fn occurs_at(h: Seq<char>, p: Seq<char>, i: int) -> bool {
    0 <= i && i + p.len() <= h.len() && h.subrange(i, i + p.len()) == p
}

/// First position at or after `i` where `p` occurs in `h`.
pub open spec fn find_from(h: Seq<char>, p: Seq<char>, i: int) -> Option<int>
    decreases h.len() + 1 - i,
{
    if i < 0 || i + p.len() > h.len() {
        None
    } else if occurs_at(h, p, i) {
        Some(i)
    } else {
        find_from(h, p, i + 1)
    }
}

/// First position where `p` occurs in `h` (`str::find`).
pub open spec fn find(h: Seq<char>, p: Seq<char>) -> Option<int> {
    find_from(h, p, 0)
}

pub open spec fn contains(h: Seq<char>, p: Seq<char>) -> bool {
    find(h, p) is Some
}

pub open spec fn starts_with<T>(s: Seq<T>, p: Seq<T>) -> bool {
    p.len() <= s.len() && s.subrange(0, p.len() as int) == p
}

pub open spec fn ends_with<T>(s: Seq<T>, p: Seq<T>) -> bool {
    p.len() <= s.len() && s.subrange(s.len() - p.len(), s.len() as int) == p
}

/// The decimal digit character for `d < 10`.
pub open spec fn digit_char(d: nat) -> char {
    ((d + 48) as u32) as char
}

/// Decimal rendering of `n`, without sign or leading zeros.
pub open spec fn decimal(n: nat) -> Seq<char>
    decreases n,
{
    if n < 10 {
        seq![digit_char(n)]
    } else {
        decimal(n / 10).push(digit_char(n % 10))
    }
}

/// Value of a run of ASCII digits.
pub open spec fn digits_value(s: Seq<char>) -> nat
    decreases s.len(),
{
    if s.len() == 0 {
        0
    } else {
        digits_value(s.drop_last()) * 10 + ((s.last() as u32) - 48) as nat
    }
}

pub open spec fn all_digits(s: Seq<char>) -> bool {
    forall|i: int| 0 <= i < s.len() ==> is_digit(#[trigger] s[i])
}

/// `str::parse` for an unsigned integer type whose largest value is `max`: an optional
/// `+`, then one or more ASCII digits, with a value of at most `max`.
pub open spec fn parse_unsigned(s: Seq<char>, max: nat) -> Option<nat> {
    let body = if s.len() > 0 && s[0] == '+' {
        s.drop_first()
    } else {
        s
    };
    if body.len() > 0 && all_digits(body) && digits_value(body) <= max {
        Some(digits_value(body))
    } else {
        None
    }
}

pub open spec fn parse_usize(s: Seq<char>) -> Option<usize> {
    match parse_unsigned(s, usize::MAX as nat) {
        Some(n) => Some(n as usize),
        None => None,
    }
}

pub open spec fn parse_u8(s: Seq<char>) -> Option<u8> {
    match parse_unsigned(s, u8::MAX as nat) {
        Some(n) => Some(n as u8),
        None => None,
    }
}

pub open spec fn parse_u16_spec(s: Seq<char>) -> Option<u16> {
    match parse_unsigned(s, u16::MAX as nat) {
        Some(n) => Some(n as u16),
        None => None,
    }
}

/// `str::parse::<i64>`: an optional sign, then one or more digits, in range.
pub open spec fn parse_i64(s: Seq<char>) -> Option<i64> {
    let neg = s.len() > 0 && s[0] == '-';
    let body = if s.len() > 0 && (s[0] == '+' || s[0] == '-') {
        s.drop_first()
    } else {
        s
    };
    let v: int = if neg {
        -(digits_value(body) as int)
    } else {
        digits_value(body) as int
    };
    if body.len() > 0 && all_digits(body) && i64::MIN <= v && v <= i64::MAX {
        Some(v as i64)
    } else {
        None
    }
}

/// `h[i..]` with every non-overlapping occurrence of `p` (scanning left to right)
/// replaced by `r` (`str::replace` for a non-empty pattern).
pub open spec fn replace_from(h: Seq<char>, p: Seq<char>, r: Seq<char>, i: int) -> Seq<char>
    decreases h.len() - i,
{
    if i < 0 || i >= h.len() || p.len() == 0 {
        if 0 <= i <= h.len() {
            h.subrange(i, h.len() as int)
        } else {
            Seq::empty()
        }
    } else if occurs_at(h, p, i) {
        r + replace_from(h, p, r, i + p.len())
    } else {
        seq![h[i]] + replace_from(h, p, r, i + 1)
    }
}

pub open spec fn replace_all(h: Seq<char>, p: Seq<char>, r: Seq<char>) -> Seq<char> {
    replace_from(h, p, r, 0)
}

/// The text of an ASCII byte string.
pub open spec fn ascii_chars(b: Seq<u8>) -> Seq<char> {
    Seq::new(b.len(), |i: int| (b[i] as u32) as char)
}

// ---------------------------------------------------------------------------
// Lemmas
// ---------------------------------------------------------------------------
pub proof fn lemma_first_from_bounds<T>(s: Seq<T>, p: spec_fn(T) -> bool, i: int)
    requires
        0 <= i <= s.len(),
    ensures
        i <= first_from(s, p, i) <= s.len(),
        first_from(s, p, i) < s.len() ==> p(s[first_from(s, p, i)]),
        forall|j: int| i <= j < first_from(s, p, i) ==> !p(#[trigger] s[j]),
    decreases s.len() - i,
{
    if i < s.len() && !p(s[i]) {
        lemma_first_from_bounds(s, p, i + 1);
    }
}

pub proof fn lemma_last_pos<T>(s: Seq<T>, x: T)
    ensures
        last_pos_of(s, x) matches Some(k) ==> 0 <= k < s.len() && s[k] == x,
        last_pos_of(s, x) matches Some(k) ==> forall|j: int| k < j < s.len() ==> s[j] != x,
        last_pos_of(s, x) is None ==> forall|j: int| 0 <= j < s.len() ==> s[j] != x,
    decreases s.len(),
{
    if s.len() > 0 && s.last() != x {
        lemma_last_pos(s.drop_last(), x);
        assert forall|j: int| 0 <= j < s.len() - 1 implies s.drop_last()[j] == s[j] by {}
    }
}

pub proof fn lemma_find_from_props(h: Seq<char>, p: Seq<char>, i: int)
    requires
        0 <= i,
    ensures
        find_from(h, p, i) matches Some(k) ==> i <= k && occurs_at(h, p, k),
        find_from(h, p, i) matches Some(k) ==> forall|j: int| i <= j < k ==> !occurs_at(h, p, j),
        find_from(h, p, i) is None ==> forall|j: int| i <= j ==> !occurs_at(h, p, j),
    decreases h.len() + 1 - i,
{
    if i + p.len() > h.len() {
    } else if occurs_at(h, p, i) {
    } else {
        lemma_find_from_props(h, p, i + 1);
    }
}

proof fn lemma_digits_value_push(s: Seq<char>, c: char)
    ensures
        digits_value(s.push(c)) == digits_value(s) * 10 + ((c as u32) - 48) as nat,
{
    assert(s.push(c).drop_last() =~= s);
}

// ---------------------------------------------------------------------------
// Executable helpers
// ---------------------------------------------------------------------------
/// Appends one character (`String::push`).
#[verifier::external_body]
pub(crate) fn push_char(s: &mut String, c: char)
    ensures
        final(s)@ == old(s)@.push(c),
{
    s.push(c)
}

pub fn upper(c: char) -> (r: char)
    ensures
        r == upper_char(c),
{
    if 'a' <= c && c <= 'z' {
        let b = c as u8;
        (b - 32) as char
    } else {
        c
    }
}

pub fn lower(c: char) -> (r: char)
    ensures
        r == lower_char(c),
{
    if 'A' <= c && c <= 'Z' {
        let b = c as u8;
        (b + 32) as char
    } else {
        c
    }
}

pub fn is_whitespace(c: char) -> (r: bool)
    ensures
        r == is_ws(c),
{
    let u = c as u32;
    (0x9 <= u && u <= 0xd) || u == 0x20 || u == 0x85 || u == 0xa0 || u == 0x1680 || (0x2000 <= u
        && u <= 0x200a) || u == 0x2028 || u == 0x2029 || u == 0x202f || u == 0x205f || u == 0x3000
}

/// The characters of `s`, in order.
pub fn chars_of(s: &str) -> (v: Vec<char>)
    ensures
        v@ == s@,
{
    let mut v: Vec<char> = Vec::new();
    for c in iter: s.chars()
        invariant
            v@ == iter.seq().take(iter.index() as int),
    {
        v.push(c);
    }
    assert(v@ =~= s@);
    v
}

/// The characters `v[lo..hi]` as a `String`.
pub fn string_of(v: &Vec<char>, lo: usize, hi: usize) -> (s: String)
    requires
        lo <= hi <= v.len(),
    ensures
        s@ == v@.subrange(lo as int, hi as int),
{
    let mut s = String::new();
    let mut i: usize = lo;
    while i < hi
        invariant
            lo <= i <= hi <= v.len(),
            s@ == v@.subrange(lo as int, i as int),
        decreases hi - i,
    {
        push_char(&mut s, v[i]);
        i = i + 1;
        assert(s@ =~= v@.subrange(lo as int, i as int));
    }
    s
}

/// A copy of a string.
pub fn copy_string(s: &String) -> (r: String)
    ensures
        r@ == s@,
{
    let v = chars_of(s.as_str());
    string_of(&v, 0, v.len())
}

/// `s` followed by `t`.
pub fn concat(s: &str, t: &str) -> (r: String)
    ensures
        r@ == s@ + t@,
{
    let a = chars_of(s);
    let b = chars_of(t);
    let mut r = string_of(&a, 0, a.len());
    let mut i: usize = 0;
    while i < b.len()
        invariant
            0 <= i <= b.len(),
            b@ == t@,
            r@ == s@ + b@.subrange(0, i as int),
        decreases b.len() - i,
    {
        push_char(&mut r, b[i]);
        i = i + 1;
        assert(r@ =~= s@ + b@.subrange(0, i as int));
    }
    assert(b@.subrange(0, b.len() as int) =~= b@);
    r
}

/// Appends `t` to `s`.
pub fn append(s: &mut String, t: &str)
    ensures
        final(s)@ == old(s)@ + t@,
{
    let b = chars_of(t);
    let ghost s0 = s@;
    let mut i: usize = 0;
    while i < b.len()
        invariant
            0 <= i <= b.len(),
            b@ == t@,
            s@ == s0 + b@.subrange(0, i as int),
        decreases b.len() - i,
    {
        push_char(s, b[i]);
        i = i + 1;
        assert(s@ =~= s0 + b@.subrange(0, i as int));
    }
    assert(b@.subrange(0, b.len() as int) =~= b@);
}

pub fn upper_vec(v: &Vec<char>) -> (r: Vec<char>)
    ensures
        r@ == upper_seq(v@),
{
    let mut r: Vec<char> = Vec::new();
    let mut i: usize = 0;
    while i < v.len()
        invariant
            0 <= i <= v.len(),
            r@ == upper_seq(v@).subrange(0, i as int),
        decreases v.len() - i,
    {
        r.push(upper(v[i]));
        i = i + 1;
        assert(r@ =~= upper_seq(v@).subrange(0, i as int));
    }
    assert(r@ =~= upper_seq(v@));
    r
}

pub fn lower_vec(v: &Vec<char>) -> (r: Vec<char>)
    ensures
        r@ == lower_seq(v@),
{
    let mut r: Vec<char> = Vec::new();
    let mut i: usize = 0;
    while i < v.len()
        invariant
            0 <= i <= v.len(),
            r@ == lower_seq(v@).subrange(0, i as int),
        decreases v.len() - i,
    {
        r.push(lower(v[i]));
        i = i + 1;
        assert(r@ =~= lower_seq(v@).subrange(0, i as int));
    }
    assert(r@ =~= lower_seq(v@));
    r
}

/// ASCII lower-casing of a string (`str::to_ascii_lowercase`).
pub fn to_lower(s: &str) -> (r: String)
    ensures
        r@ == lower_seq(s@),
{
    let v = chars_of(s);
    let l = lower_vec(&v);
    string_of(&l, 0, l.len())
}

/// ASCII upper-casing of a string (`str::to_ascii_uppercase`).
pub fn to_upper(s: &str) -> (r: String)
    ensures
        r@ == upper_seq(s@),
{
    let v = chars_of(s);
    let l = upper_vec(&v);
    string_of(&l, 0, l.len())
}

pub fn eq_ignore_case_vec(a: &Vec<char>, b: &Vec<char>) -> (r: bool)
    ensures
        r == eq_ignore_case(a@, b@),
{
    if a.len() != b.len() {
        assert(lower_seq(a@).len() != lower_seq(b@).len());
        return false;
    }
    let mut i: usize = 0;
    while i < a.len()
        invariant
            0 <= i <= a.len(),
            a.len() == b.len(),
            forall|j: int| 0 <= j < i ==> lower_char(#[trigger] a@[j]) == lower_char(b@[j]),
        decreases a.len() - i,
    {
        if lower(a[i]) != lower(b[i]) {
            assert(lower_seq(a@)[i as int] != lower_seq(b@)[i as int]);
            return false;
        }
        i = i + 1;
    }
    assert(lower_seq(a@) =~= lower_seq(b@));
    true
}

/// `a.eq_ignore_ascii_case(b)` for strings.
pub fn str_eq_ignore_case(a: &str, b: &str) -> (r: bool)
    ensures
        r == eq_ignore_case(a@, b@),
{
    let x = chars_of(a);
    let y = chars_of(b);
    eq_ignore_case_vec(&x, &y)
}

/// Exact equality of two character vectors.
pub fn str_eq_vec(x: &Vec<char>, y: &Vec<char>) -> (r: bool)
    ensures
        r == (x@ == y@),
{
    if x.len() != y.len() {
        return false;
    }
    let mut i: usize = 0;
    while i < x.len()
        invariant
            0 <= i <= x.len(),
            x.len() == y.len(),
            forall|j: int| 0 <= j < i ==> #[trigger] x@[j] == y@[j],
        decreases x.len() - i,
    {
        if x[i] != y[i] {
            return false;
        }
        i = i + 1;
    }
    assert(x@ =~= y@);
    true
}

/// Exact equality of two strings.
pub fn str_eq(a: &str, b: &str) -> (r: bool)
    ensures
        r == (a@ == b@),
{
    let x = chars_of(a);
    let y = chars_of(b);
    if x.len() != y.len() {
        return false;
    }
    let mut i: usize = 0;
    while i < x.len()
        invariant
            0 <= i <= x.len(),
            x.len() == y.len(),
            x@ == a@,
            y@ == b@,
            forall|j: int| 0 <= j < i ==> #[trigger] x@[j] == y@[j],
        decreases x.len() - i,
    {
        if x[i] != y[i] {
            return false;
        }
        i = i + 1;
    }
    assert(x@ =~= y@);
    true
}

/// Whether `p` occurs in `h` at position `i`.
pub fn occurs_at_vec(h: &Vec<char>, p: &Vec<char>, i: usize) -> (r: bool)
    ensures
        r == occurs_at(h@, p@, i as int),
{
    if i > h.len() || p.len() > h.len() - i {
        return false;
    }
    let mut j: usize = 0;
    while j < p.len()
        invariant
            0 <= j <= p.len(),
            i + p.len() <= h.len(),
            forall|k: int| 0 <= k < j ==> #[trigger] h@[i + k] == p@[k],
        decreases p.len() - j,
    {
        if h[i + j] != p[j] {
            assert(h@.subrange(i as int, i + p.len())[j as int] != p@[j as int]);
            return false;
        }
        j = j + 1;
    }
    assert forall|k: int| 0 <= k < p.len() implies #[trigger] h@.subrange(
        i as int,
        i + p.len(),
    )[k] == p@[k] by {
        assert(h@[i + k] == p@[k]);
    }
    assert(h@.subrange(i as int, i + p.len()) =~= p@);
    true
}

/// First position of `p` in `h` at or after `from`.
pub fn find_vec_from(h: &Vec<char>, p: &Vec<char>, from: usize) -> (r: Option<usize>)
    ensures
        r matches Some(k) ==> find_from(h@, p@, from as int) == Some(k as int),
        r is None ==> find_from(h@, p@, from as int) is None,
{
    let mut i: usize = from;
    while i <= h.len()
        invariant
            from <= i,
            find_from(h@, p@, from as int) == find_from(h@, p@, i as int),
        decreases h.len() + 1 - i,
    {
        if p.len() > h.len() - i {
            return None;
        }
        if occurs_at_vec(h, p, i) {
            return Some(i);
        }
        if i == h.len() {
            assert(h@.subrange(i as int, i as int) =~= p@);
            return None;
        }
        i = i + 1;
    }
    None
}

/// First position of `p` in `h`.
pub fn find_vec(h: &Vec<char>, p: &Vec<char>) -> (r: Option<usize>)
    ensures
        r matches Some(k) ==> find(h@, p@) == Some(k as int),
        r is None ==> find(h@, p@) is None,
{
    find_vec_from(h, p, 0)
}

/// Whether `p` occurs in `h` (`str::contains`).
pub fn contains_str(h: &str, p: &str) -> (r: bool)
    ensures
        r == contains(h@, p@),
{
    let hv = chars_of(h);
    let pv = chars_of(p);
    find_vec(&hv, &pv).is_some()
}

/// First position at or after `from` holding a non-whitespace character.
pub fn skip_ws(v: &Vec<char>, from: usize) -> (r: usize)
    requires
        from <= v.len(),
    ensures
        r == first_from(v@, |c: char| !is_ws(c), from as int),
        from <= r <= v.len(),
{
    let mut i: usize = from;
    proof {
        lemma_first_from_bounds(v@, |c: char| !is_ws(c), from as int);
    }
    while i < v.len()
        invariant
            from <= i <= v.len(),
            first_from(v@, |c: char| !is_ws(c), from as int) == first_from(
                v@,
                |c: char| !is_ws(c),
                i as int,
            ),
        decreases v.len() - i,
    {
        if !is_whitespace(v[i]) {
            return i;
        }
        i = i + 1;
    }
    i
}

/// Whether `s` begins with `p`.
pub fn starts_with_str(s: &str, p: &str) -> (r: bool)
    ensures
        r == starts_with(s@, p@),
{
    let sv = chars_of(s);
    let pv = chars_of(p);
    if pv.len() > sv.len() {
        return false;
    }
    let r = occurs_at_vec(&sv, &pv, 0);
    r
}

/// Whether `s` ends with `p`.
pub fn ends_with_str(s: &str, p: &str) -> (r: bool)
    ensures
        r == ends_with(s@, p@),
{
    let sv = chars_of(s);
    let pv = chars_of(p);
    if pv.len() > sv.len() {
        return false;
    }
    occurs_at_vec(&sv, &pv, sv.len() - pv.len())
}

/// Decimal rendering of `n` (the `Display` of unsigned integers).
pub fn u64_to_string(n: u64) -> (s: String)
    ensures
        s@ == decimal(n as nat),
    decreases n,
{
    if n < 10 {
        let mut s = String::new();
        push_char(&mut s, ((n as u8) + 48) as char);
        assert(s@ =~= decimal(n as nat));
        s
    } else {
        let mut s = u64_to_string(n / 10);
        push_char(&mut s, (((n % 10) as u8) + 48) as char);
        s
    }
}

/// Value of the ASCII digits `v[lo..hi]`, if it does not exceed `limit`.
pub fn digits_up_to(v: &Vec<char>, lo: usize, hi: usize, limit: u64) -> (r: Option<u64>)
    requires
        lo <= hi <= v.len(),
        all_digits(v@.subrange(lo as int, hi as int)),
    ensures
        r == (if digits_value(v@.subrange(lo as int, hi as int)) <= limit {
            Some(digits_value(v@.subrange(lo as int, hi as int)) as u64)
        } else {
            None::<u64>
        }),
{
    let mut acc: u64 = 0;
    let mut i: usize = lo;
    while i < hi
        invariant
            lo <= i <= hi <= v.len(),
            all_digits(v@.subrange(lo as int, hi as int)),
            acc as nat == digits_value(v@.subrange(lo as int, i as int)),
            acc <= limit,
        decreases hi - i,
    {
        let c = v[i];
        assert(v@.subrange(lo as int, hi as int)[i - lo] == c);
        let d = (c as u32 - 48) as u64;
        proof {
            assert(v@.subrange(lo as int, i + 1) =~= v@.subrange(lo as int, i as int).push(c));
            lemma_digits_value_push(v@.subrange(lo as int, i as int), c);
            lemma_digits_monotone(v@.subrange(lo as int, hi as int), (i - lo + 1) as int);
            assert(v@.subrange(lo as int, hi as int).subrange(0, (i - lo + 1) as int) =~= v@.subrange(
                lo as int,
                i + 1,
            ));
        }
        if acc > limit / 10 {
            proof {
                assert(acc * 10 + d > limit) by (nonlinear_arith)
                    requires
                        acc > limit / 10,
                ;
            }
            return None;
        }
        proof {
            assert(acc * 10 <= limit) by (nonlinear_arith)
                requires
                    acc <= limit / 10,
            ;
        }
        if d > limit - acc * 10 {
            return None;
        }
        acc = acc * 10 + d;
        i = i + 1;
    }
    Some(acc)
}

proof fn lemma_digits_monotone(s: Seq<char>, k: int)
    requires
        0 <= k <= s.len(),
        all_digits(s),
    ensures
        digits_value(s.subrange(0, k)) <= digits_value(s),
    decreases s.len() - k,
{
    if k < s.len() {
        let t = s.drop_last();
        assert(all_digits(t)) by {
            assert forall|i: int| 0 <= i < t.len() implies is_digit(#[trigger] t[i]) by {
                assert(t[i] == s[i]);
            }
        }
        lemma_digits_monotone(t, k);
        assert(t.subrange(0, k) =~= s.subrange(0, k));
        assert(digits_value(s) == digits_value(t) * 10 + ((s.last() as u32) - 48) as nat);
    } else {
        assert(s.subrange(0, k) =~= s);
    }
}

/// Whether `v[lo..hi]` consists of ASCII digits only.
pub fn all_digits_in(v: &Vec<char>, lo: usize, hi: usize) -> (r: bool)
    requires
        lo <= hi <= v.len(),
    ensures
        r == all_digits(v@.subrange(lo as int, hi as int)),
{
    let mut i: usize = lo;
    while i < hi
        invariant
            lo <= i <= hi <= v.len(),
            forall|j: int| lo <= j < i ==> is_digit(#[trigger] v@[j]),
        decreases hi - i,
    {
        if !('0' <= v[i] && v[i] <= '9') {
            assert(!is_digit(v@.subrange(lo as int, hi as int)[i - lo]));
            return false;
        }
        i = i + 1;
    }
    assert forall|j: int| 0 <= j < hi - lo implies is_digit(
        #[trigger] v@.subrange(lo as int, hi as int)[j],
    ) by {
        assert(v@.subrange(lo as int, hi as int)[j] == v@[lo + j]);
    }
    true
}

/// `str::parse` of `v[lo..hi]` for an unsigned type whose largest value is `max`.
pub fn parse_unsigned_in(v: &Vec<char>, lo: usize, hi: usize, max: u64) -> (r: Option<u64>)
    requires
        lo <= hi <= v.len(),
    ensures
        r == (match parse_unsigned(v@.subrange(lo as int, hi as int), max as nat) {
            Some(n) => Some(n as u64),
            None => None::<u64>,
        }),
{
    let ghost s = v@.subrange(lo as int, hi as int);
    let mut start = lo;
    if lo < hi && v[lo] == '+' {
        start = lo + 1;
        assert(s.drop_first() =~= v@.subrange(start as int, hi as int));
    } else {
        assert(s =~= v@.subrange(start as int, hi as int));
    }
    if start == hi || !all_digits_in(v, start, hi) {
        return None;
    }
    digits_up_to(v, start, hi, max)
}

/// `str::parse::<u16>` of `v[lo..hi]`.
pub fn u16_of(v: &Vec<char>, lo: usize, hi: usize) -> (r: Option<u16>)
    requires
        lo <= hi <= v.len(),
    ensures
        r == parse_u16_spec(v@.subrange(lo as int, hi as int)),
{
    match parse_unsigned_in(v, lo, hi, 65535) {
        Some(n) => Some(n as u16),
        None => None,
    }
}

/// `str::parse::<usize>` of `v[lo..hi]`.
pub fn usize_of(v: &Vec<char>, lo: usize, hi: usize) -> (r: Option<usize>)
    requires
        lo <= hi <= v.len(),
    ensures
        r == parse_usize(v@.subrange(lo as int, hi as int)),
{
    match parse_unsigned_in(v, lo, hi, usize::MAX as u64) {
        Some(n) => Some(n as usize),
        None => None,
    }
}

/// `str::parse::<u8>` of `v[lo..hi]`.
pub fn u8_of(v: &Vec<char>, lo: usize, hi: usize) -> (r: Option<u8>)
    requires
        lo <= hi <= v.len(),
    ensures
        r == parse_u8(v@.subrange(lo as int, hi as int)),
{
    match parse_unsigned_in(v, lo, hi, 255) {
        Some(n) => Some(n as u8),
        None => None,
    }
}

/// Last position of `x` in `v`.
pub fn last_pos_in(v: &Vec<char>, x: char) -> (r: Option<usize>)
    ensures
        r == (match last_pos_of(v@, x) {
            Some(k) => Some(k as usize),
            None => None::<usize>,
        }),
{
    let mut i = v.len();
    assert(v@.subrange(0, i as int) =~= v@);
    while i > 0
        invariant
            i <= v.len(),
            last_pos_of(v@, x) == last_pos_of(v@.subrange(0, i as int), x),
        decreases i,
    {
        assert(v@.subrange(0, i as int).drop_last() =~= v@.subrange(0, i - 1));
        if v[i - 1] == x {
            return Some(i - 1);
        }
        i = i - 1;
    }
    None
}


/// `h.replace(p, r)` for a non-empty pattern `p`.
pub fn replace_str(h: &str, p: &str, r: &str) -> (out: String)
    requires
        p@.len() > 0,
    ensures
        out@ == replace_all(h@, p@, r@),
{
    let hv = chars_of(h);
    let pv = chars_of(p);
    let mut out = String::new();
    let mut j: usize = 0;
    while j < hv.len()
        invariant
            0 <= j <= hv.len(),
            hv@ == h@,
            pv@ == p@,
            pv@.len() > 0,
            out@ + replace_from(h@, p@, r@, j as int) == replace_all(h@, p@, r@),
        decreases hv.len() - j,
    {
        let ghost before = out@;
        if occurs_at_vec(&hv, &pv, j) {
            append(&mut out, r);
            proof {
                assert(before + replace_from(h@, p@, r@, j as int) =~= out@ + replace_from(
                    h@,
                    p@,
                    r@,
                    j + pv.len(),
                ));
            }
            j = j + pv.len();
        } else {
            push_char(&mut out, hv[j]);
            proof {
                assert(before + replace_from(h@, p@, r@, j as int) =~= out@ + replace_from(
                    h@,
                    p@,
                    r@,
                    j + 1,
                ));
            }
            j = j + 1;
        }
    }
    proof {
        assert(replace_from(h@, p@, r@, j as int) =~= Seq::<char>::empty());
        assert(out@ + Seq::<char>::empty() =~= out@);
    }
    out
}

} // verus!
