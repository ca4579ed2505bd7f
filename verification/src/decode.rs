//! Turning the bytes filled from a master side into text.
//!
//! A chunk is decoded as a whole: it is text only if all of it is valid
//! UTF-8. A chunk that ends inside a multi-byte character is therefore
//! refused, and nothing of it is consumed, so that the same bytes can be
//! decoded again once the rest of the character has arrived.

use crate::error::SessionError;
use vstd::prelude::*;
use vstd::string::StringSliceAdditionalSpecFns;
use vstd::utf8::{decode_utf8, encode_utf8, valid_utf8};

verus! {

/// What a chunk of filled bytes amounts to.
pub enum Decoded {
    /// Nothing was filled.
    NoData,
    /// All of the chunk is text.
    Text(Seq<char>),
    /// The chunk is not valid UTF-8.
    Invalid,
}

/// The meaning of a chunk of filled bytes.
pub open spec fn decode(bytes: Seq<u8>) -> Decoded {
    if bytes.len() == 0 {
        Decoded::NoData
    } else if valid_utf8(bytes) {
        Decoded::Text(decode_utf8(bytes))
    } else {
        Decoded::Invalid
    }
}

/// How many bytes of a chunk a read consumes: all of a chunk that is text,
/// none of any other.
pub open spec fn consumed(bytes: Seq<u8>) -> nat {
    if valid_utf8(bytes) {
        bytes.len()
    } else {
        0
    }
}

/// What remains filled after a read of `bytes`.
pub open spec fn remainder(bytes: Seq<u8>) -> Seq<u8> {
    bytes.subrange(consumed(bytes) as int, bytes.len() as int)
}

/// Whether a read's reply is the one that `decoded` calls for.
pub open spec fn reply_is(reply: Result<Option<String>, SessionError>, decoded: Decoded) -> bool {
    match decoded {
        Decoded::NoData => reply == Ok::<Option<String>, SessionError>(None),
        Decoded::Text(text) => reply matches Ok(Some(found)) && found@ == text,
        Decoded::Invalid => reply == Err::<Option<String>, SessionError>(
            SessionError::DecodeFailed,
        ),
    }
}

/// `std::str::from_utf8`, with its error dropped. The claim, not proved
/// here: it accepts exactly the byte strings that are valid UTF-8, and the
/// text it returns is made of the very bytes it was given.
#[verifier::external_body]
fn utf8_text(bytes: &[u8]) -> (text: Option<&str>)
    ensures
        text is Some <==> valid_utf8(bytes@),
        text matches Some(found) ==> found.spec_bytes() == bytes@,
{
    match std::str::from_utf8(bytes) {
        Ok(found) => Some(found),
        Err(_) => None,
    }
}

/// Decodes a chunk of filled bytes: no data for an empty chunk, the text of
/// a chunk that is valid UTF-8, `DecodeFailed` for any other.
pub fn decode_chunk(bytes: &[u8]) -> (reply: Result<Option<String>, SessionError>)
    ensures
        reply_is(reply, decode(bytes@)),
{
    if bytes.len() == 0 {
        return Ok(None);
    }
    match utf8_text(bytes) {
        Some(found) => {
            proof {
                vstd::utf8::encode_utf8_decode_utf8(found@);
            }
            Ok(Some(found.to_owned()))
        },
        None => Err(SessionError::DecodeFailed),
    }
}

/// The bytes that writing `text` sends: its UTF-8 encoding, whole.
pub fn text_bytes(text: &str) -> (bytes: Vec<u8>)
    ensures
        bytes@ == encode_utf8(text@),
{
    vstd::slice::slice_to_vec(text.as_bytes())
}

} // verus!
