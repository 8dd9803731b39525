//! Trusted shims over the base64 crate, which encodes the binary payloads
//! and error messages that cross the serial protocol.

use vstd::prelude::*;

verus! {

/// What `base64::encode` returns for the given bytes: the standard-alphabet,
/// padded base64 rendering, a function of the bytes alone.
pub uninterp spec fn b64_of(bytes: Seq<u8>) -> Seq<char>;

/// What `base64::decode` makes of the given string: `Some` with the decoded
/// bytes exactly on input the standard-alphabet, padded decoder accepts, a
/// function of the string alone.
pub uninterp spec fn b64_parse(s: Seq<char>) -> Option<Seq<u8>>;

/// Relies on `base64::encode`: encodes arbitrary octets as base64 with the
/// standard configuration.
#[verifier::external_body]
pub fn encode_b64(bytes: &[u8]) -> (r: String)
    ensures
        r@ == b64_of(bytes@),
{
    base64::encode(bytes)
}

/// Relies on `base64::decode`: decodes standard-configuration base64, and
/// rejects anything else. The `Err` string is the decoder's own message.
#[verifier::external_body]
pub fn decode_b64(s: &str) -> (r: Result<Vec<u8>, String>)
    ensures
        match r {
            Ok(v) => b64_parse(s@) == Some(v@),
            Err(_) => b64_parse(s@) is None,
        },
{
    match base64::decode(s) {
        Ok(v) => Ok(v),
        Err(e) => Err(format!("{}", e)),
    }
}

} // verus!
