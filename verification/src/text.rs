//! Octets as text: the two conversions of the standard library that the
//! library takes for granted.

use vstd::prelude::*;
use vstd::string::StringSliceAdditionalSpecFns;
use vstd::utf8::{encode_utf8, valid_utf8};

verus! {

/// `core::str::Utf8Error`, the error of `core::str::from_utf8`.
#[verifier::external_type_specification]
#[verifier::external_body]
pub struct ExUtf8Error(std::str::Utf8Error);

/// `alloc::string::FromUtf8Error`, the error of `String::from_utf8`.
#[verifier::external_type_specification]
#[verifier::external_body]
pub struct ExFromUtf8Error(std::string::FromUtf8Error);

/// `core::str::from_utf8`. Trusted: the call succeeds on the octets that
/// are valid UTF-8 and on no others, and the text it returns is made of
/// the octets it was given.
#[verifier::external_body]
pub(crate) fn text_of<'a>(octets: &'a [u8]) -> (r: Result<&'a str, std::str::Utf8Error>)
    ensures
        r is Ok <==> valid_utf8(octets@),
        r matches Ok(text) ==> text.spec_bytes() == octets@,
{
    std::str::from_utf8(octets)
}

/// `String::from_utf8`. Trusted: the call succeeds on the octets that are
/// valid UTF-8 and on no others, and the string it returns is made of the
/// octets it was given.
#[verifier::external_body]
pub(crate) fn string_of(octets: Vec<u8>) -> (r: Result<String, std::string::FromUtf8Error>)
    ensures
        r is Ok <==> valid_utf8(octets@),
        r matches Ok(text) ==> encode_utf8(text@) == octets@,
{
    String::from_utf8(octets)
}

} // verus!
