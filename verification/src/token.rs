use vstd::prelude::*;

use crate::text::all_ascii;

verus! {

/// What `String::from_utf8` yields on a byte sequence: the decoded
/// characters, or nothing when the bytes are not valid UTF-8; pure-ASCII
/// bytes always decode, each to the character of its value. A function of
/// the bytes alone.
pub uninterp spec fn utf8_decode_of(bytes: Seq<u8>) -> Option<Seq<char>>;

/// Relies on `String::from_utf8`: strict UTF-8 decoding, failing exactly on
/// invalid byte sequences; ASCII input decodes to itself.
#[verifier::external_body]
fn utf8_decode(bytes: &[u8]) -> (r: Option<String>)
    ensures
        r is Some <==> utf8_decode_of(bytes@) is Some,
        r is Some ==> r->0@ == utf8_decode_of(bytes@)->0,
        all_ascii(bytes@) ==> r is Some && r->0@ == bytes@.map_values(|b: u8| b as char),
{
    String::from_utf8(bytes.to_vec()).ok()
}

/// Prepares a login token's bytes for persistence. Without a platform key
/// store the bytes are stored as they are; a store that wraps them (such as
/// a per-user OS facility) sits with the caller.
pub fn encrypt_token(bytes: &[u8]) -> (r: Result<Vec<u8>, String>)
    ensures
        r matches Ok(v) && v@ == bytes@,
{
    Ok(crate::manifest::sub_vec(bytes, 0, bytes.len()))
}

/// Reads a persisted login token back: the stored bytes must be UTF-8.
pub fn decrypt_token(bytes: &[u8]) -> (r: Result<String, String>)
    ensures
        r is Ok <==> utf8_decode_of(bytes@) is Some,
        r matches Ok(s) ==> s@ == utf8_decode_of(bytes@)->0,
{
    match utf8_decode(bytes) {
        Some(s) => Ok(s),
        None => Err("token is not UTF-8".to_owned()),
    }
}

} // verus!
