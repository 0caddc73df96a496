//! Parsing one InfluxDB line-protocol (ILP) line into a row.
use vstd::prelude::*;

use crate::lexical::{ascii_vec, float_literal, i64_of, is_float_literal};
use crate::scan::{find_byte, utf8_lossy, utf8_lossy_text};
use crate::text::{ascii_chars, byte_pos, chars_of, lemma_byte_pos_bounds, parse_i64, str_eq_vec, string_of};

verus! {

/// A parsed ILP field value. A float is kept as the text of its literal, which is
/// known to be accepted by a floating-point `str::parse`; the conversion to a number is
/// the caller's.
#[derive(Debug, Clone, PartialEq)]
pub enum IlpField {
    Float(String),
    Integer(i64),
    Bool(bool),
    String(String),
}

/// One parsed ILP line.
#[derive(Debug, Clone, PartialEq)]
pub struct IlpRow {
    pub measurement: String,
    pub tags: Vec<(String, String)>,
    pub fields: Vec<(String, IlpField)>,
    pub timestamp_ns: Option<i64>,
}

pub enum FieldView {
    Float(Seq<char>),
    Integer(i64),
    Bool(bool),
    Str(Seq<char>),
}

pub struct RowView {
    pub measurement: Seq<char>,
    pub tags: Seq<(Seq<char>, Seq<char>)>,
    pub fields: Seq<(Seq<char>, FieldView)>,
    pub timestamp_ns: Option<i64>,
}

impl View for IlpField {
    type V = FieldView;

    open spec fn view(&self) -> FieldView {
        match self {
            IlpField::Float(t) => FieldView::Float(t@),
            IlpField::Integer(n) => FieldView::Integer(*n),
            IlpField::Bool(b) => FieldView::Bool(*b),
            IlpField::String(s) => FieldView::Str(s@),
        }
    }
}

pub open spec fn tags_view(v: Seq<(String, String)>) -> Seq<(Seq<char>, Seq<char>)> {
    Seq::new(v.len(), |i: int| (v[i].0@, v[i].1@))
}

pub open spec fn fields_view(v: Seq<(String, IlpField)>) -> Seq<(Seq<char>, FieldView)> {
    Seq::new(v.len(), |i: int| (v[i].0@, v[i].1@))
}

impl View for IlpRow {
    type V = RowView;

    open spec fn view(&self) -> RowView {
        RowView {
            measurement: self.measurement@,
            tags: tags_view(self.tags@),
            fields: fields_view(self.fields@),
            timestamp_ns: self.timestamp_ns,
        }
    }
}

impl IlpField {
    /// A copy of the value.
    pub fn duplicate(&self) -> (r: Self)
        ensures
            r@ == self@,
    {
        match self {
            IlpField::Float(t) => IlpField::Float(t.clone()),
            IlpField::Integer(n) => IlpField::Integer(*n),
            IlpField::Bool(b) => IlpField::Bool(*b),
            IlpField::String(s) => IlpField::String(s.clone()),
        }
    }
}

impl IlpRow {
    /// A copy of the row.
    pub fn duplicate(&self) -> (r: Self)
        ensures
            r@ == self@,
    {
        let mut tags: Vec<(String, String)> = Vec::new();
        let mut i: usize = 0;
        while i < self.tags.len()
            invariant
                0 <= i <= self.tags@.len(),
                tags_view(tags@) == tags_view(self.tags@).take(i as int),
                tags@.len() == i,
            decreases self.tags.len() - i,
        {
            let ghost before = tags@;
            tags.push((self.tags[i].0.clone(), self.tags[i].1.clone()));
            i = i + 1;
            assert forall|k: int| 0 <= k < i implies #[trigger] tags_view(tags@)[k] == tags_view(
                self.tags@,
            ).take(i as int)[k] by {
                if k < i - 1 {
                    assert(tags@[k] == before[k]);
                    assert(tags_view(before)[k] == tags_view(self.tags@).take(i - 1)[k]);
                }
            }
            assert(tags_view(tags@) =~= tags_view(self.tags@).take(i as int));
        }
        assert(tags_view(self.tags@).take(i as int) =~= tags_view(self.tags@));
        let mut fields: Vec<(String, IlpField)> = Vec::new();
        let mut j: usize = 0;
        while j < self.fields.len()
            invariant
                0 <= j <= self.fields@.len(),
                fields_view(fields@) == fields_view(self.fields@).take(j as int),
                fields@.len() == j,
            decreases self.fields.len() - j,
        {
            let ghost before = fields@;
            fields.push((self.fields[j].0.clone(), self.fields[j].1.duplicate()));
            j = j + 1;
            assert forall|k: int| 0 <= k < j implies #[trigger] fields_view(fields@)[k]
                == fields_view(self.fields@).take(j as int)[k] by {
                if k < j - 1 {
                    assert(fields@[k] == before[k]);
                    assert(fields_view(before)[k] == fields_view(self.fields@).take(j - 1)[k]);
                }
            }
            assert(fields_view(fields@) =~= fields_view(self.fields@).take(j as int));
        }
        assert(fields_view(self.fields@).take(j as int) =~= fields_view(self.fields@));
        IlpRow {
            measurement: self.measurement.clone(),
            tags,
            fields,
            timestamp_ns: self.timestamp_ns,
        }
    }
}

// ---------------------------------------------------------------------------
// Specification
// ---------------------------------------------------------------------------
/// End of the line's content: one trailing newline is not part of it.
pub open spec fn row_end(line: Seq<u8>) -> int {
    if line.len() > 0 && line.last() == 10u8 {
        line.len() - 1
    } else {
        line.len() as int
    }
}

/// The boolean spellings ILP accepts.
pub open spec fn bool_text(t: Seq<char>) -> Option<bool> {
    if t == "t"@ || t == "T"@ || t == "true"@ || t == "TRUE"@ {
        Some(true)
    } else if t == "f"@ || t == "F"@ || t == "false"@ || t == "FALSE"@ {
        Some(false)
    } else {
        None
    }
}

/// The value of the raw field text `b[lo..hi]`: a quoted string (its quotes are the
/// first and last byte), an integer with an `i` suffix, a boolean, or a float literal.
pub open spec fn field_value(b: Seq<u8>, lo: int, hi: int) -> Option<FieldView> {
    if lo >= hi {
        None
    } else if b[lo] == 34u8 {
        if hi - lo < 2 {
            None
        } else {
            Some(FieldView::Str(utf8_lossy(b.subrange(lo + 1, hi - 1))))
        }
    } else if b[hi - 1] == 105u8 && hi - lo > 1 {
        match parse_i64(ascii_chars(b.subrange(lo, hi - 1))) {
            Some(n) => Some(FieldView::Integer(n)),
            None => None,
        }
    } else {
        let t = ascii_chars(b.subrange(lo, hi));
        match bool_text(t) {
            Some(x) => Some(FieldView::Bool(x)),
            None => if float_literal(t) {
                Some(FieldView::Float(t))
            } else {
                None
            },
        }
    }
}

/// The tag `name=value` of the segment `b[lo..hi]` (split at its first `=`).
pub open spec fn tag_pair(b: Seq<u8>, lo: int, hi: int) -> Option<(Seq<char>, Seq<char>)> {
    let eq = byte_pos(b, 61u8, lo, hi);
    if eq < hi {
        Some((utf8_lossy(b.subrange(lo, eq)), utf8_lossy(b.subrange(eq + 1, hi))))
    } else {
        None
    }
}

/// The field `name=value` of the segment `b[lo..hi]`, when its value parses.
pub open spec fn field_pair(b: Seq<u8>, lo: int, hi: int) -> Option<(Seq<char>, FieldView)> {
    let eq = byte_pos(b, 61u8, lo, hi);
    if eq < hi {
        match field_value(b, eq + 1, hi) {
            Some(v) => Some((utf8_lossy(b.subrange(lo, eq)), v)),
            None => None,
        }
    } else {
        None
    }
}

pub open spec fn opt_seq<T>(o: Option<T>) -> Seq<T> {
    match o {
        Some(x) => seq![x],
        None => Seq::empty(),
    }
}

/// The tags of the `,`-separated segments of `b[start..hi]`.
pub open spec fn tags_from(b: Seq<u8>, start: int, hi: int) -> Seq<(Seq<char>, Seq<char>)>
    decreases hi + 1 - start,
{
    if start < 0 || start > hi || hi > b.len() {
        Seq::empty()
    } else {
        proof {
            lemma_byte_pos_bounds(b, 44u8, start, hi);
        }
        let end = byte_pos(b, 44u8, start, hi);
        let here = opt_seq(tag_pair(b, start, end));
        if end < hi {
            here + tags_from(b, end + 1, hi)
        } else {
            here
        }
    }
}

/// The parsed fields of the `,`-separated segments of `b[start..hi]`.
pub open spec fn fields_from(b: Seq<u8>, start: int, hi: int) -> Seq<(Seq<char>, FieldView)>
    decreases hi + 1 - start,
{
    if start < 0 || start > hi || hi > b.len() {
        Seq::empty()
    } else {
        proof {
            lemma_byte_pos_bounds(b, 44u8, start, hi);
        }
        let end = byte_pos(b, 44u8, start, hi);
        let here = opt_seq(field_pair(b, start, end));
        if end < hi {
            here + fields_from(b, end + 1, hi)
        } else {
            here
        }
    }
}

/// Last position of byte `x` in `b[lo..hi]`, or -1.
pub open spec fn last_byte(b: Seq<u8>, x: u8, lo: int, hi: int) -> int
    decreases hi - lo,
{
    if hi <= lo {
        -1
    } else if b[hi - 1] == x {
        hi - 1
    } else {
        last_byte(b, x, lo, hi - 1)
    }
}

/// A row from one ILP line: `measurement,tags fields timestamp`. The measurement runs
/// to the first comma (none, or an empty name, means no row); the tags to the first
/// space after it; the timestamp follows the last space of the field section.
pub open spec fn parse_row(line: Seq<u8>) -> Option<RowView> {
    let n = row_end(line);
    if n == 0 {
        None
    } else {
        let c = byte_pos(line, 44u8, 0, n);
        if c == n || c == 0 {
            None
        } else {
            let sp = byte_pos(line, 32u8, c + 1, n);
            let fields_lo = if sp < n {
                sp + 1
            } else {
                n
            };
            let tags = if sp > c + 1 {
                tags_from(line, c + 1, sp)
            } else {
                Seq::empty()
            };
            let k = last_byte(line, 32u8, fields_lo, n);
            let ts = if fields_lo < n && k >= 0 && k + 1 < n {
                parse_i64(ascii_chars(line.subrange(k + 1, n)))
            } else {
                None
            };
            let fields_hi = if fields_lo < n && k >= 0 {
                k
            } else {
                n
            };
            let fields = if fields_hi > fields_lo {
                fields_from(line, fields_lo, fields_hi)
            } else {
                Seq::empty()
            };
            Some(
                RowView {
                    measurement: utf8_lossy(line.subrange(0, c)),
                    tags,
                    fields,
                    timestamp_ns: ts,
                },
            )
        }
    }
}

/// `a` and `b` hold the same bytes below `hi`.
pub open spec fn same_below(a: Seq<u8>, b: Seq<u8>, hi: int) -> bool {
    &&& 0 <= hi <= a.len()
    &&& hi <= b.len()
    &&& forall|k: int| 0 <= k < hi ==> a[k] == b[k]
}

proof fn lemma_frame_byte_pos(a: Seq<u8>, b: Seq<u8>, hi: int, x: u8, i: int, end: int)
    requires
        same_below(a, b, hi),
        end <= hi,
    ensures
        byte_pos(a, x, i, end) == byte_pos(b, x, i, end),
    decreases end - i,
{
    if !(i < 0 || i >= end || i >= a.len()) {
        lemma_frame_byte_pos(a, b, hi, x, i + 1, end);
    }
}

proof fn lemma_frame_last_byte(a: Seq<u8>, b: Seq<u8>, hi: int, x: u8, lo: int, end: int)
    requires
        same_below(a, b, hi),
        0 <= lo,
        end <= hi,
    ensures
        last_byte(a, x, lo, end) == last_byte(b, x, lo, end),
        last_byte(a, x, lo, end) == -1 || lo <= last_byte(a, x, lo, end) < end,
    decreases end - lo,
{
    if end > lo {
        lemma_frame_last_byte(a, b, hi, x, lo, end - 1);
    }
}

proof fn lemma_frame_sub(a: Seq<u8>, b: Seq<u8>, hi: int, lo: int, end: int)
    requires
        same_below(a, b, hi),
        0 <= lo <= end <= hi,
    ensures
        a.subrange(lo, end) == b.subrange(lo, end),
{
    assert(a.subrange(lo, end) =~= b.subrange(lo, end));
}

proof fn lemma_frame_value(a: Seq<u8>, b: Seq<u8>, hi: int, lo: int, end: int)
    requires
        same_below(a, b, hi),
        0 <= lo,
        end <= hi,
    ensures
        field_value(a, lo, end) == field_value(b, lo, end),
{
    if lo < end {
        if end - lo >= 2 {
            lemma_frame_sub(a, b, hi, lo + 1, end - 1);
        }
        lemma_frame_sub(a, b, hi, lo, end - 1);
        lemma_frame_sub(a, b, hi, lo, end);
    }
}

proof fn lemma_frame_pairs(a: Seq<u8>, b: Seq<u8>, hi: int, lo: int, end: int)
    requires
        same_below(a, b, hi),
        0 <= lo <= end <= hi,
    ensures
        tag_pair(a, lo, end) == tag_pair(b, lo, end),
        field_pair(a, lo, end) == field_pair(b, lo, end),
{
    lemma_frame_byte_pos(a, b, hi, 61u8, lo, end);
    lemma_byte_pos_bounds(a, 61u8, lo, end);
    let eq = byte_pos(a, 61u8, lo, end);
    if eq < end {
        lemma_frame_sub(a, b, hi, lo, eq);
        lemma_frame_sub(a, b, hi, eq + 1, end);
        lemma_frame_value(a, b, hi, eq + 1, end);
    }
}

proof fn lemma_frame_lists(a: Seq<u8>, b: Seq<u8>, hi: int, start: int, end: int)
    requires
        same_below(a, b, hi),
        end <= hi,
    ensures
        tags_from(a, start, end) == tags_from(b, start, end),
        fields_from(a, start, end) == fields_from(b, start, end),
    decreases end + 1 - start,
{
    if !(start < 0 || start > end) {
        lemma_byte_pos_bounds(a, 44u8, start, end);
        lemma_frame_byte_pos(a, b, hi, 44u8, start, end);
        let e = byte_pos(a, 44u8, start, end);
        lemma_frame_pairs(a, b, hi, start, e);
        if e < end {
            lemma_frame_lists(a, b, hi, e + 1, end);
        }
    }
}

/// A trailing newline does not change the row of a line: the line with one newline
/// appended parses as the line itself (unless the line already ends in a newline).
pub proof fn law_trailing_newline_ignored(line: Seq<u8>)
    requires
        !(line.len() > 0 && line.last() == 10u8),
    ensures
        parse_row(line.push(10u8)) == parse_row(line),
{
    let t = line.push(10u8);
    let n = line.len() as int;
    assert(row_end(t) == n);
    assert(row_end(line) == n);
    assert(same_below(t, line, n));
    if n > 0 {
        lemma_frame_byte_pos(t, line, n, 44u8, 0, n);
        lemma_byte_pos_bounds(line, 44u8, 0, n);
        let c = byte_pos(line, 44u8, 0, n);
        if c < n && c > 0 {
            lemma_frame_byte_pos(t, line, n, 32u8, c + 1, n);
            lemma_byte_pos_bounds(line, 32u8, c + 1, n);
            let sp = byte_pos(line, 32u8, c + 1, n);
            let fields_lo = if sp < n {
                sp + 1
            } else {
                n
            };
            lemma_frame_lists(t, line, n, c + 1, sp);
            lemma_frame_last_byte(t, line, n, 32u8, fields_lo, n);
            let k = last_byte(line, 32u8, fields_lo, n);
            if fields_lo < n && k >= 0 && k + 1 < n {
                lemma_frame_sub(t, line, n, k + 1, n);
            }
            let fields_hi = if fields_lo < n && k >= 0 {
                k
            } else {
                n
            };
            lemma_frame_lists(t, line, n, fields_lo, fields_hi);
            lemma_frame_sub(t, line, n, 0, c);
        }
    }
}

// ---------------------------------------------------------------------------
// Implementation
// ---------------------------------------------------------------------------
fn bool_of(t: &Vec<char>) -> (r: Option<bool>)
    ensures
        r == bool_text(t@),
{
    if str_eq_vec(t, &chars_of("t")) || str_eq_vec(t, &chars_of("T")) || str_eq_vec(
        t,
        &chars_of("true"),
    ) || str_eq_vec(t, &chars_of("TRUE")) {
        Some(true)
    } else if str_eq_vec(t, &chars_of("f")) || str_eq_vec(t, &chars_of("F")) || str_eq_vec(
        t,
        &chars_of("false"),
    ) || str_eq_vec(t, &chars_of("FALSE")) {
        Some(false)
    } else {
        None
    }
}

fn parse_field_value(b: &[u8], lo: usize, hi: usize) -> (r: Option<IlpField>)
    requires
        lo <= hi <= b@.len(),
    ensures
        r matches Some(v) ==> field_value(b@, lo as int, hi as int) == Some(v@),
        r is None ==> field_value(b@, lo as int, hi as int) is None,
{
    if lo >= hi {
        return None;
    }
    if b[lo] == 34u8 {
        if hi - lo < 2 {
            return None;
        }
        return Some(IlpField::String(utf8_lossy_text(b, lo + 1, hi - 1)));
    }
    if b[hi - 1] == 105u8 && hi - lo > 1 {
        let v = ascii_vec(b, lo, hi - 1);
        return match i64_of(&v) {
            Some(n) => Some(IlpField::Integer(n)),
            None => None,
        };
    }
    let t = ascii_vec(b, lo, hi);
    match bool_of(&t) {
        Some(x) => Some(IlpField::Bool(x)),
        None => if is_float_literal(&t) {
            assert(t@.subrange(0, t@.len() as int) =~= t@);
            Some(IlpField::Float(string_of(&t, 0, t.len())))
        } else {
            None
        },
    }
}

fn parse_tag(b: &[u8], lo: usize, hi: usize) -> (r: Option<(String, String)>)
    requires
        lo <= hi <= b@.len(),
    ensures
        r matches Some(p) ==> tag_pair(b@, lo as int, hi as int) == Some((p.0@, p.1@)),
        r is None ==> tag_pair(b@, lo as int, hi as int) is None,
{
    let eq = find_byte(61u8, b, lo, hi);
    if eq < hi {
        Some((utf8_lossy_text(b, lo, eq), utf8_lossy_text(b, eq + 1, hi)))
    } else {
        None
    }
}

fn parse_field(b: &[u8], lo: usize, hi: usize) -> (r: Option<(String, IlpField)>)
    requires
        lo <= hi <= b@.len(),
    ensures
        r matches Some(p) ==> field_pair(b@, lo as int, hi as int) == Some((p.0@, p.1@)),
        r is None ==> field_pair(b@, lo as int, hi as int) is None,
{
    let eq = find_byte(61u8, b, lo, hi);
    if eq < hi {
        match parse_field_value(b, eq + 1, hi) {
            Some(v) => Some((utf8_lossy_text(b, lo, eq), v)),
            None => None,
        }
    } else {
        None
    }
}

fn parse_tags(b: &[u8], lo: usize, hi: usize) -> (r: Vec<(String, String)>)
    requires
        lo <= hi <= b@.len(),
    ensures
        tags_view(r@) == tags_from(b@, lo as int, hi as int),
{
    let mut tags: Vec<(String, String)> = Vec::new();
    let mut start = lo;
    loop
        invariant_except_break
            lo <= start <= hi <= b@.len(),
            tags_view(tags@) + tags_from(b@, start as int, hi as int) == tags_from(
                b@,
                lo as int,
                hi as int,
            ),
        ensures
            tags_view(tags@) == tags_from(b@, lo as int, hi as int),
        decreases hi + 1 - start,
    {
        let end = find_byte(44u8, b, start, hi);
        let ghost before = tags@;
        match parse_tag(b, start, end) {
            Some(p) => {
                tags.push(p);
            },
            None => {},
        }
        assert(tags_view(tags@) =~= tags_view(before) + opt_seq(tag_pair(b@, start as int, end as int)));
        if end == hi {
            assert(tags_view(tags@) =~= tags_from(b@, lo as int, hi as int));
            break;
        }
        assert(tags_view(tags@) + tags_from(b@, end + 1, hi as int) =~= tags_view(before)
            + tags_from(b@, start as int, hi as int));
        start = end + 1;
    }
    tags
}

fn parse_fields(b: &[u8], lo: usize, hi: usize) -> (r: Vec<(String, IlpField)>)
    requires
        lo <= hi <= b@.len(),
    ensures
        fields_view(r@) == fields_from(b@, lo as int, hi as int),
{
    let mut fields: Vec<(String, IlpField)> = Vec::new();
    let mut start = lo;
    loop
        invariant_except_break
            lo <= start <= hi <= b@.len(),
            fields_view(fields@) + fields_from(b@, start as int, hi as int) == fields_from(
                b@,
                lo as int,
                hi as int,
            ),
        ensures
            fields_view(fields@) == fields_from(b@, lo as int, hi as int),
        decreases hi + 1 - start,
    {
        let end = find_byte(44u8, b, start, hi);
        let ghost before = fields@;
        match parse_field(b, start, end) {
            Some(p) => {
                fields.push(p);
            },
            None => {},
        }
        assert(fields_view(fields@) =~= fields_view(before) + opt_seq(
            field_pair(b@, start as int, end as int),
        ));
        if end == hi {
            assert(fields_view(fields@) =~= fields_from(b@, lo as int, hi as int));
            break;
        }
        assert(fields_view(fields@) + fields_from(b@, end + 1, hi as int) =~= fields_view(before)
            + fields_from(b@, start as int, hi as int));
        start = end + 1;
    }
    fields
}

fn last_space(b: &[u8], lo: usize, hi: usize) -> (r: Option<usize>)
    requires
        lo <= hi <= b@.len(),
    ensures
        r matches Some(k) ==> last_byte(b@, 32u8, lo as int, hi as int) == k && lo <= k < hi,
        r is None ==> last_byte(b@, 32u8, lo as int, hi as int) == -1,
{
    let mut k = hi;
    while k > lo
        invariant
            lo <= k <= hi <= b@.len(),
            last_byte(b@, 32u8, lo as int, hi as int) == last_byte(b@, 32u8, lo as int, k as int),
        decreases k - lo,
    {
        if b[k - 1] == 32u8 {
            return Some(k - 1);
        }
        k = k - 1;
    }
    None
}

/// Parse a single ILP line (one trailing newline allowed) into an `IlpRow`.
pub fn parse_ilp_row(line: &[u8]) -> (r: Option<IlpRow>)
    ensures
        r matches Some(row) ==> parse_row(line@) == Some(row@),
        r is None ==> parse_row(line@) is None,
{
    if line.len() == 0 {
        return None;
    }
    let n = if line[line.len() - 1] == 10u8 {
        line.len() - 1
    } else {
        line.len()
    };
    if n == 0 {
        return None;
    }
    let c = find_byte(44u8, line, 0, n);
    if c == n || c == 0 {
        return None;
    }
    let measurement = utf8_lossy_text(line, 0, c);
    let sp = find_byte(32u8, line, c + 1, n);
    let fields_lo = if sp < n {
        sp + 1
    } else {
        n
    };
    let tags = if sp > c + 1 {
        parse_tags(line, c + 1, sp)
    } else {
        Vec::new()
    };
    let mut timestamp_ns: Option<i64> = None;
    let mut fields_hi = n;
    if fields_lo < n {
        match last_space(line, fields_lo, n) {
            Some(k) => {
                if k + 1 < n {
                    let v = ascii_vec(line, k + 1, n);
                    timestamp_ns = i64_of(&v);
                }
                fields_hi = k;
            },
            None => {},
        }
    }
    let fields = if fields_hi > fields_lo {
        parse_fields(line, fields_lo, fields_hi)
    } else {
        Vec::new()
    };
    let row = IlpRow { measurement, tags, fields, timestamp_ns };
    assert(row@.tags =~= (if sp > c + 1 {
        tags_from(line@, c + 1, sp as int)
    } else {
        Seq::empty()
    }));
    assert(row@.fields =~= (if fields_hi > fields_lo {
        fields_from(line@, fields_lo as int, fields_hi as int)
    } else {
        Seq::empty()
    }));
    Some(row)
}

/// ILP booleans: `t`, `T`, `true` and `TRUE` read as true; `f`, `F`, `false` and
/// `FALSE` read as false; no other text is a boolean.
pub proof fn law_bool_spellings(t: Seq<char>)
    ensures
        (t == "t"@ || t == "T"@ || t == "true"@ || t == "TRUE"@) ==> bool_text(t) == Some(true),
        (t == "f"@ || t == "F"@ || t == "false"@ || t == "FALSE"@) ==> bool_text(t) == Some(false),
        bool_text(t) is Some ==> (t == "t"@ || t == "T"@ || t == "true"@ || t == "TRUE"@ || t
            == "f"@ || t == "F"@ || t == "false"@ || t == "FALSE"@),
{
    reveal_strlit("t");
    reveal_strlit("T");
    reveal_strlit("true");
    reveal_strlit("TRUE");
    reveal_strlit("f");
    reveal_strlit("F");
    reveal_strlit("false");
    reveal_strlit("FALSE");
    assert("T"@[0] != "t"@[0]);
    assert("TRUE"@[0] != "true"@[0]);
    assert("f"@[0] != "t"@[0]);
    assert("f"@[0] != "T"@[0]);
    assert("F"@[0] != "t"@[0]);
    assert("F"@[0] != "T"@[0]);
    assert("F"@[0] != "f"@[0]);
    assert("FALSE"@[0] != "false"@[0]);
}

/// A field whose raw value is a boolean spelling parses to that boolean: false for
/// `f`, `F`, `false`, `FALSE`, true for `t`, `T`, `true`, `TRUE`.
pub proof fn law_bool_field(b: Seq<u8>, lo: int, hi: int)
    requires
        0 <= lo < hi <= b.len(),
    ensures
        ({
            let t = ascii_chars(b.subrange(lo, hi));
            &&& (t == "f"@ || t == "F"@ || t == "false"@ || t == "FALSE"@) ==> field_value(b, lo, hi)
                == Some(FieldView::Bool(false))
            &&& (t == "t"@ || t == "T"@ || t == "true"@ || t == "TRUE"@) ==> field_value(b, lo, hi)
                == Some(FieldView::Bool(true))
        }),
{
    reveal_strlit("t");
    reveal_strlit("T");
    reveal_strlit("true");
    reveal_strlit("TRUE");
    reveal_strlit("f");
    reveal_strlit("F");
    reveal_strlit("false");
    reveal_strlit("FALSE");
    let t = ascii_chars(b.subrange(lo, hi));
    assert(t[0] == (b[lo] as u32) as char);
    assert(t[t.len() - 1] == (b[hi - 1] as u32) as char);
}

} // verus!
