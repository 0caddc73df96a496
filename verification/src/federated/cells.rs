//! Reading text cells of PostgreSQL data rows, and classifying shard errors.
use vstd::prelude::*;
use vstd::utf8::{decode_utf8, valid_utf8};

use crate::scan::utf8_text;
use crate::text::{contains, contains_str, lower_seq, to_lower};

verus! {

/// The length prefix of the cell at `pos`: a big-endian `i32`, when four bytes remain.
pub open spec fn cell_len(b: Seq<u8>, pos: int) -> Option<int> {
    if pos + 4 > b.len() {
        None
    } else {
        let u = ((b[pos] as int * 256 + b[pos + 1] as int) * 256 + b[pos + 2] as int) * 256
            + b[pos + 3] as int;
        Some(
            if u >= 0x8000_0000 {
                u - 0x1_0000_0000
            } else {
                u
            },
        )
    }
}

/// The text of the first cell of a row: absent for a short buffer, a NULL (negative
/// length), a truncated value, or invalid UTF-8.
pub open spec fn first_cell(b: Seq<u8>) -> Option<Seq<char>> {
    match cell_len(b, 0) {
        Some(len) => if len < 0 || 4 + len > b.len() {
            None
        } else if valid_utf8(b.subrange(4, 4 + len)) {
            Some(decode_utf8(b.subrange(4, 4 + len)))
        } else {
            None
        },
        None => None,
    }
}

pub(crate) fn read_len(b: &[u8], pos: usize) -> (r: Option<i64>)
    requires
        pos <= b@.len(),
    ensures
        r == (match cell_len(b@, pos as int) {
            Some(l) => Some(l as i64),
            None => None::<i64>,
        }),
{
    if b.len() - pos < 4 {
        return None;
    }
    let u: i64 = ((b[pos] as i64 * 256 + b[pos + 1] as i64) * 256 + b[pos + 2] as i64) * 256
        + b[pos + 3] as i64;
    if u >= 0x8000_0000 {
        Some(u - 0x1_0000_0000)
    } else {
        Some(u)
    }
}

/// The text of the first cell of a data row.
pub fn first_cell_string(data: &[u8]) -> (r: Option<String>)
    ensures
        r matches Some(s) ==> first_cell(data@) == Some(s@),
        r is None ==> first_cell(data@) is None,
{
    let len = match read_len(data, 0) {
        Some(l) => l,
        None => {
            return None;
        },
    };
    if len < 0 || len as usize > data.len() - 4 {
        return None;
    }
    match utf8_text(data, 4, 4 + len as usize) {
        Some(s) => Some(String::from_str(s)),
        None => None,
    }
}

/// Whether a backend error message reports a dead connection.
pub open spec fn connection_error_text(msg: Seq<char>) -> bool {
    let l = lower_seq(msg);
    contains(l, "broken pipe"@) || contains(l, "connection reset"@) || contains(
        l,
        "connection refused"@,
    ) || contains(l, "connection closed"@) || contains(l, "unexpected eof"@) || contains(
        l,
        "unexpected remote message"@,
    )
}

pub fn is_connection_error(msg: &str) -> (r: bool)
    ensures
        r == connection_error_text(msg@),
{
    let l = to_lower(msg);
    let s = l.as_str();
    contains_str(s, "broken pipe") || contains_str(s, "connection reset") || contains_str(
        s,
        "connection refused",
    ) || contains_str(s, "connection closed") || contains_str(s, "unexpected eof")
        || contains_str(s, "unexpected remote message")
}

/// Whether a backend error message reports a missing table (a shard without the
/// table contributes no rows).
pub fn is_missing_table_error(msg: &str) -> (r: bool)
    ensures
        r == contains(lower_seq(msg@), "table does not exist"@),
{
    let l = to_lower(msg);
    contains_str(l.as_str(), "table does not exist")
}

} // verus!
