//! The string decoder: a payload taken whole and validated as UTF-8.
use vstd::prelude::*;
use vstd::utf8::{valid_utf8, decode_utf8, encode_utf8, decode_utf8_encode_utf8};
use crate::errors::DecodeError;

verus! {

/// Relies on `String::from_utf8`: it succeeds exactly when the bytes are
/// valid UTF-8, and the string then holds the characters they encode.
#[verifier::external_body]
fn string_from_utf8(b: Vec<u8>) -> (r: Result<String, std::string::FromUtf8Error>)
    ensures
        match r {
            Ok(s) => valid_utf8(b@) && s@ == decode_utf8(b@),
            Err(_) => !valid_utf8(b@),
        },
{
    String::from_utf8(b)
}

/// Decodes the whole of `buf` as UTF-8 text. Nothing is trimmed: a NUL byte
/// is kept as a character.
pub fn parse_string(buf: &[u8]) -> (r: Result<String, DecodeError>)
    ensures
        match r {
            Ok(s) => valid_utf8(buf@) && s@ == decode_utf8(buf@) && encode_utf8(s@) == buf@,
            Err(e) => !valid_utf8(buf@) && e is Utf8Error,
        },
{
    let bytes = vstd::slice::slice_to_vec(buf);
    match string_from_utf8(bytes) {
        Ok(s) => {
            proof {
                decode_utf8_encode_utf8(buf@);
            }
            Ok(s)
        },
        Err(e) => Err(DecodeError::Utf8Error(e)),
    }
}

} // verus!
