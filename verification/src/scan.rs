//! Byte scanning and UTF-8 decoding of line-protocol buffers.
use vstd::prelude::*;
use vstd::utf8::{decode_utf8, valid_utf8};

use crate::text::{byte_pos, lemma_byte_pos_is};

verus! {

/// `memchr::memchr` on `hay[lo..hi]`: the offset of the first `needle` in that range.
#[verifier::external_body]
fn memchr_in(needle: u8, hay: &[u8], lo: usize, hi: usize) -> (r: Option<usize>)
    requires
        lo <= hi <= hay@.len(),
    ensures
        r matches Some(i) ==> lo + i < hi && hay@[lo + i] == needle && forall|j: int|
            lo <= j < lo + i ==> hay@[j] != needle,
        r is None ==> forall|j: int| lo <= j < hi ==> hay@[j] != needle,
{
    memchr::memchr(needle, &hay[lo..hi])
}

/// Position of the first `needle` in `hay[lo..hi]`, or `hi`.
pub fn find_byte(needle: u8, hay: &[u8], lo: usize, hi: usize) -> (r: usize)
    requires
        lo <= hi <= hay@.len(),
    ensures
        r == byte_pos(hay@, needle, lo as int, hi as int),
        lo <= r <= hi,
        r < hi ==> hay@[r as int] == needle,
        forall|j: int| lo <= j < r ==> hay@[j] != needle,
{
    match memchr_in(needle, hay, lo, hi) {
        Some(i) => {
            proof {
                lemma_byte_pos_is(hay@, needle, lo as int, hi as int, lo + i);
            }
            lo + i
        },
        None => {
            proof {
                lemma_byte_pos_is(hay@, needle, lo as int, hi as int, hi as int);
            }
            hi
        },
    }
}

/// What `String::from_utf8_lossy` makes of `b`: the decoded text, with U+FFFD for
/// each invalid sequence.
pub uninterp spec fn utf8_lossy(b: Seq<u8>) -> Seq<char>;

/// `std::str::from_utf8` on `bytes[lo..hi]`: the text, when the bytes are valid UTF-8.
#[verifier::external_body]
pub(crate) fn utf8_text(bytes: &[u8], lo: usize, hi: usize) -> (r: Option<&str>)
    requires
        lo <= hi <= bytes@.len(),
    ensures
        r is Some == valid_utf8(bytes@.subrange(lo as int, hi as int)),
        r matches Some(s) ==> s@ == decode_utf8(bytes@.subrange(lo as int, hi as int)),
{
    std::str::from_utf8(&bytes[lo..hi]).ok()
}

/// `String::from_utf8_lossy` on `bytes[lo..hi]`. Its result is named `utf8_lossy`; for
/// valid UTF-8 it is the decoded text.
#[verifier::external_body]
pub(crate) fn utf8_lossy_text(bytes: &[u8], lo: usize, hi: usize) -> (r: String)
    requires
        lo <= hi <= bytes@.len(),
    ensures
        r@ == utf8_lossy(bytes@.subrange(lo as int, hi as int)),
        valid_utf8(bytes@.subrange(lo as int, hi as int)) ==> r@ == decode_utf8(
            bytes@.subrange(lo as int, hi as int),
        ),
{
    String::from_utf8_lossy(&bytes[lo..hi]).into_owned()
}

} // verus!
