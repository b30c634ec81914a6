//! Decoding of received bytes into text.

use vstd::prelude::*;
use vstd::utf8::{decode_utf8, valid_utf8};

verus! {

/// The text that lossy UTF-8 decoding makes of `bytes`: the decoded
/// characters, with U+FFFD in place of each byte sequence that is not valid
/// UTF-8. How the invalid sequences are delimited is the standard library's
/// business and not stated here.
pub uninterp spec fn lossy_text(bytes: Seq<u8>) -> Seq<char>;

/// Decodes `bytes` as UTF-8, substituting U+FFFD for invalid sequences.
///
/// Trusted: the body calls `String::from_utf8_lossy` of the standard library.
/// The contract names its result and adds what the documentation says of
/// valid input, namely that it is decoded unchanged.
#[verifier::external_body]
pub(crate) fn decode_lossy(bytes: &[u8]) -> (text: String)
    ensures
        text@ == lossy_text(bytes@),
        valid_utf8(bytes@) ==> text@ == decode_utf8(bytes@),
{
    String::from_utf8_lossy(bytes).into_owned()
}

} // verus!
