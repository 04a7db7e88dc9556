//! The two places where the library leans on the standard library's string
//! machinery: collecting characters into a `String`, and UTF-8 validation.
//! Both are stated against vstd's mathematical UTF-8 model.

use vstd::prelude::*;
use vstd::utf8::{decode_utf8, valid_utf8};

verus! {

/// Relies on `String`'s `FromIterator<char>`: collecting an iterator of
/// characters concatenates exactly those characters, in order.
#[verifier::external_body]
pub fn chars_to_string(v: Vec<char>) -> (r: String)
    ensures
        r@ == v@,
{
    v.into_iter().collect()
}

/// Relies on `String::from_utf8`: it returns `Ok` exactly when the bytes are
/// valid UTF-8, and then the string consists of the characters those bytes
/// encode.
#[verifier::external_body]
pub fn bytes_to_string(bytes: &Vec<u8>) -> (r: Option<String>)
    ensures
        r is Some <==> valid_utf8(bytes@),
        r matches Some(s) ==> s@ == decode_utf8(bytes@),
{
    match String::from_utf8(bytes.clone()) {
        Ok(s) => Some(s),
        Err(_) => None,
    }
}

} // verus!
