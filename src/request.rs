//! Turning what the native server reports about a request into values.
use vstd::prelude::*;
use vstd::utf8::{decode_utf8, valid_utf8};

verus! {

/// The text that `String::from_utf8_lossy` makes of `b`.
pub uninterp spec fn utf8_lossy(b: Seq<u8>) -> Seq<char>;

/// Relies on `String::from_utf8_lossy`: the text of the bytes, with each
/// invalid sequence replaced; valid UTF-8 is decoded as it is.
#[verifier::external_body]
fn decode_lossy(b: &[u8]) -> (r: String)
    ensures
        r@ == utf8_lossy(b@),
        valid_utf8(b@) ==> r@ == decode_utf8(b@),
{
    String::from_utf8_lossy(b).into_owned()
}

/// The query string of a request. `len` is the length the server reported
/// and `buf` the buffer it filled: the text takes its first `len` bytes.
pub fn query_text(len: usize, buf: &[u8]) -> (r: String)
    requires
        len <= buf@.len(),
    ensures
        len == 0 ==> r@.len() == 0,
        len > 0 ==> r@ == utf8_lossy(buf@.subrange(0, len as int)),
        len > 0 && valid_utf8(buf@.subrange(0, len as int)) ==> r@ == decode_utf8(
            buf@.subrange(0, len as int),
        ),
{
    if len == 0 {
        String::new()
    } else {
        decode_lossy(&buf[0..len])
    }
}

/// The value of a request header. `len` is the length the server reported,
/// 0 where the header is absent, and `buf` the buffer it filled.
pub fn header_text(len: usize, buf: &[u8]) -> (r: Option<String>)
    requires
        len <= buf@.len(),
    ensures
        r.is_none() <==> len == 0,
        r matches Some(s) ==> s@ == utf8_lossy(buf@.subrange(0, len as int)),
        r matches Some(s) ==> (valid_utf8(buf@.subrange(0, len as int)) ==> s@ == decode_utf8(
            buf@.subrange(0, len as int),
        )),
{
    if len == 0 {
        None
    } else {
        Some(decode_lossy(&buf[0..len]))
    }
}

/// What a read of the request body came to: a negative count from the
/// server is its error code, any other is the number of bytes read.
pub fn received(len: i32) -> (r: Result<usize, i32>)
    ensures
        len < 0 ==> r == Err::<usize, i32>(len),
        len >= 0 ==> r == Ok::<usize, i32>(len as usize),
{
    if len < 0 {
        Err(len)
    } else {
        Ok(len as usize)
    }
}

} // verus!
