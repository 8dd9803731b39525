//! Trusted shims over std's string conversions.

use vstd::prelude::*;

verus! {

/// What `String::from_utf8_lossy` returns on arbitrary bytes. On valid UTF-8
/// the shim below pins it down exactly; on invalid UTF-8 only the name is
/// known, so nothing is claimed of the replacement characters.
pub uninterp spec fn utf8_lossy(bytes: Seq<u8>) -> Seq<char>;

/// Relies on `String::push`: appends exactly one character.
#[verifier::external_body]
pub fn push_char(s: &mut String, c: char)
    ensures
        final(s)@ == old(s)@.push(c),
{
    s.push(c);
}

/// Relies on `String::from_utf8`: returns a string exactly when the bytes are
/// valid UTF-8, and then the string's characters are the decoded bytes.
#[verifier::external_body]
pub fn string_from_utf8(v: Vec<u8>) -> (r: Option<String>)
    ensures
        match r {
            Some(s) => vstd::utf8::valid_utf8(v@) && s@ == vstd::utf8::decode_utf8(v@),
            None => !vstd::utf8::valid_utf8(v@),
        },
{
    String::from_utf8(v).ok()
}

/// Relies on `String::from_utf8_lossy`: total on arbitrary bytes, and on
/// valid UTF-8 it decodes the bytes without replacement.
#[verifier::external_body]
pub fn string_from_utf8_lossy(v: &[u8]) -> (r: String)
    ensures
        r@ == utf8_lossy(v@),
        vstd::utf8::valid_utf8(v@) ==> r@ == vstd::utf8::decode_utf8(v@),
{
    String::from_utf8_lossy(v).into_owned()
}

} // verus!
