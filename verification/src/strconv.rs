//! Conversions between byte strings and text, used where a checkpoint stores
//! byte-level data in its text columns.

use vstd::prelude::*;
use vstd::string::StrSliceExecFns;
use vstd::utf8::encode_utf8;
use vstd::utf8::valid_utf8;

verus! {

/// Relies on `String::from_utf8` of std: it succeeds exactly on valid UTF-8
/// input and keeps the bytes unchanged.
#[verifier::external_body]
pub fn bytes_to_string(b: Vec<u8>) -> (r: Option<String>)
    ensures
        r matches Some(s) ==> valid_utf8(b@) && encode_utf8(s@) == b@,
        r is None ==> !valid_utf8(b@),
{
    String::from_utf8(b).ok()
}

/// The UTF-8 bytes of a string.
pub fn string_to_bytes(s: &String) -> (r: Vec<u8>)
    ensures
        r@ == encode_utf8(s@),
{
    s.as_str().as_bytes_vec()
}

} // verus!
