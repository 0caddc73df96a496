//! Splitting the ILP byte stream of a connection into lines.
use vstd::prelude::*;

use crate::scan::find_byte;
use crate::text::byte_pos;

verus! {

/// Bytes read from a client per read call.
pub const READ_BUF: usize = 65536;

/// Length of the first complete line of `buf` (through its newline), if there is one.
pub fn complete_line_len(buf: &[u8]) -> (r: Option<usize>)
    ensures
        r matches Some(n) ==> 0 < n <= buf@.len() && buf@[n - 1] == 10u8 && byte_pos(
            buf@,
            10u8,
            0,
            buf@.len() as int,
        ) == n - 1,
        r is None ==> byte_pos(buf@, 10u8, 0, buf@.len() as int) == buf@.len(),
{
    let p = find_byte(10u8, buf, 0, buf.len());
    if p < buf.len() {
        Some(p + 1)
    } else {
        None
    }
}

} // verus!
