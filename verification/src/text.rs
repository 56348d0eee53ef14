//! Bytes that are read as text.

use vstd::prelude::*;
use vstd::string::StringSliceAdditionalSpecFns;
use vstd::utf8::valid_utf8;

verus! {

/// Calls `core::str::from_utf8`, which gives the bytes back as a string
/// exactly when they are valid UTF-8.
#[verifier::external_body]
pub(crate) fn utf8<'a>(bytes: &'a [u8]) -> (r: Option<&'a str>)
    ensures
        valid_utf8(bytes@) ==> r.is_some() && r.unwrap().spec_bytes() == bytes@,
        !valid_utf8(bytes@) ==> r.is_none(),
{
    match core::str::from_utf8(bytes) {
        Ok(s) => Some(s),
        Err(_) => None,
    }
}

} // verus!
