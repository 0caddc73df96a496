//! Shard-key and measurement extraction from InfluxDB line protocol (ILP).
use vstd::prelude::*;
use vstd::utf8::{decode_utf8, valid_utf8};

use crate::scan::{find_byte, utf8_lossy, utf8_lossy_text, utf8_text};
use crate::text::{byte_pos, eq_ignore_case, str_eq_ignore_case};

verus! {

// ---------------------------------------------------------------------------
// Specification
// ---------------------------------------------------------------------------
/// End of the first line of `b` (position of the first newline, or the length).
pub open spec fn line_end(b: Seq<u8>) -> int {
    byte_pos(b, 10u8, 0, b.len() as int)
}

/// End of the measurement name on the first line: the first `,` or space.
pub open spec fn name_end(b: Seq<u8>) -> int {
    let c = byte_pos(b, 44u8, 0, line_end(b));
    let s = byte_pos(b, 32u8, 0, line_end(b));
    if c < s {
        c
    } else {
        s
    }
}

/// The measurement name bytes of the first ILP line.
pub open spec fn measurement_span(b: Seq<u8>) -> Option<Seq<u8>> {
    if b.len() == 0 || name_end(b) == 0 {
        None
    } else {
        Some(b.subrange(0, name_end(b)))
    }
}

/// The measurement name of the first ILP line, when it is valid UTF-8.
pub open spec fn measurement_of(b: Seq<u8>) -> Option<Seq<char>> {
    match measurement_span(b) {
        Some(m) => if valid_utf8(m) {
            Some(decode_utf8(m))
        } else {
            None
        },
        None => None,
    }
}

/// A tag name matches `tag` when it is valid UTF-8 equal to `tag` up to ASCII case.
pub open spec fn tag_name_matches(name: Seq<u8>, tag: Seq<char>) -> bool {
    valid_utf8(name) && eq_ignore_case(decode_utf8(name), tag)
}

/// The value span of the first `name=value` segment of `b[start..hi]` (segments split
/// at `,`) whose name matches `tag`.
pub open spec fn tag_value_span(b: Seq<u8>, start: int, hi: int, tag: Seq<char>) -> Option<
    (int, int),
>
    decreases hi + 1 - start,
{
    if start < 0 || start > hi || hi > b.len() {
        None
    } else {
        proof {
            crate::text::lemma_byte_pos_bounds(b, 44u8, start, hi);
        }
        let end = byte_pos(b, 44u8, start, hi);
        let eq = byte_pos(b, 61u8, start, end);
        if eq < end && tag_name_matches(b.subrange(start, eq), tag) {
            Some((eq + 1, end))
        } else if end < hi {
            tag_value_span(b, end + 1, hi, tag)
        } else {
            None
        }
    }
}

/// Start of the tag section (after the first `,` of the first line), if any.
pub open spec fn tags_start(b: Seq<u8>) -> Option<int> {
    let c = byte_pos(b, 44u8, 0, line_end(b));
    if c < line_end(b) {
        Some(c + 1)
    } else {
        None
    }
}

/// End of the tag section: the first space after the tags start, or the line end.
pub open spec fn tags_end(b: Seq<u8>, start: int) -> int {
    byte_pos(b, 32u8, start, line_end(b))
}

/// The shard key of an ILP body: the value of tag `tag` on the first line, else the
/// tag name itself.
pub open spec fn shard_key_of(b: Seq<u8>, tag: Seq<char>) -> Seq<char> {
    if b.len() == 0 {
        tag
    } else {
        match tags_start(b) {
            None => tag,
            Some(s) => match tag_value_span(b, s, tags_end(b, s), tag) {
                Some((lo, hi)) => utf8_lossy(b.subrange(lo, hi)),
                None => tag,
            },
        }
    }
}

// ---------------------------------------------------------------------------
// Implementation
// ---------------------------------------------------------------------------
fn first_line_end(body: &[u8]) -> (r: usize)
    ensures
        r == line_end(body@),
        r <= body@.len(),
{
    find_byte(10u8, body, 0, body.len())
}

/// Zero-copy measurement name from an ILP line (bytes before the first comma or space).
pub fn measurement_from_ilp_bytes(body: &[u8]) -> (r: Option<&str>)
    ensures
        r matches Some(s) ==> measurement_of(body@) == Some(s@),
        r is None ==> measurement_of(body@) is None,
{
    if body.len() == 0 {
        return None;
    }
    let end = first_line_end(body);
    let c = find_byte(44u8, body, 0, end);
    let s = find_byte(32u8, body, 0, end);
    let name_end = if c < s {
        c
    } else {
        s
    };
    if name_end == 0 {
        return None;
    }
    utf8_text(body, 0, name_end)
}

/// Measurement name from the first ILP line (bytes before the first comma or space).
pub fn measurement_from_ilp(body: &[u8]) -> (r: Option<String>)
    ensures
        r matches Some(s) ==> measurement_of(body@) == Some(s@),
        r is None ==> measurement_of(body@) is None,
{
    match measurement_from_ilp_bytes(body) {
        Some(s) => Some(String::from_str(s)),
        None => None,
    }
}

fn tag_name_eq(body: &[u8], lo: usize, hi: usize, tag_name: &str) -> (r: bool)
    requires
        lo <= hi <= body@.len(),
    ensures
        r == tag_name_matches(body@.subrange(lo as int, hi as int), tag_name@),
{
    match utf8_text(body, lo, hi) {
        Some(n) => str_eq_ignore_case(n, tag_name),
        None => false,
    }
}

/// Extract the shard key from InfluxDB line protocol: the value of the named tag on
/// the first line (tag name compared without ASCII case), else the tag name itself.
pub fn shard_key_from_ilp(body: &[u8], tag_name: &str) -> (r: String)
    ensures
        r@ == shard_key_of(body@, tag_name@),
{
    if body.len() == 0 {
        return String::from_str(tag_name);
    }
    let end = first_line_end(body);
    let comma = find_byte(44u8, body, 0, end);
    if comma == end {
        return String::from_str(tag_name);
    }
    let tags_lo = comma + 1;
    let hi = find_byte(32u8, body, tags_lo, end);
    let mut start = tags_lo;
    while start <= hi
        invariant
            tags_lo <= start,
            hi <= body@.len(),
            tags_start(body@) == Some(tags_lo as int),
            tags_end(body@, tags_lo as int) == hi,
            tag_value_span(body@, tags_lo as int, hi as int, tag_name@) == tag_value_span(
                body@,
                start as int,
                hi as int,
                tag_name@,
            ),
        ensures
            tag_value_span(body@, tags_lo as int, hi as int, tag_name@) is None,
        decreases hi + 1 - start,
    {
        let seg_end = find_byte(44u8, body, start, hi);
        let eq = find_byte(61u8, body, start, seg_end);
        if eq < seg_end && tag_name_eq(body, start, eq, tag_name) {
            return utf8_lossy_text(body, eq + 1, seg_end);
        }
        if seg_end == hi {
            break;
        }
        start = seg_end + 1;
    }
    String::from_str(tag_name)
}

} // verus!
