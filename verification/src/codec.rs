//! Byte codecs the library takes from outside: Base64 (the `base64` crate) and lossy
//! UTF-8 decoding (std).

use vstd::prelude::*;
use base64::Engine;

verus! {

/// What `base64`'s standard engine (`STANDARD`: standard alphabet, canonical padding
/// required) makes of the bytes of a text: the decoded bytes, or the text that the
/// `Display` of its decode error shows.
pub uninterp spec fn base64_standard_decode(input: Seq<char>) -> Result<Seq<u8>, Seq<char>>;

/// The text `String::from_utf8_lossy` makes of some bytes.
pub uninterp spec fn utf8_lossy(bytes: Seq<u8>) -> Seq<char>;

/// Decodes standard, padded Base64; an error comes back as its message.
///
/// Calls `base64::Engine::decode` on `base64::prelude::BASE64_STANDARD` and formats a
/// `base64::DecodeError` with its `Display` impl. The contract names the result, which
/// depends on the input alone.
#[verifier::external_body]
pub(crate) fn base64_decode(input: &str) -> (r: Result<Vec<u8>, String>)
    ensures
        match r {
            Ok(bytes) => base64_standard_decode(input@) == Ok::<Seq<u8>, Seq<char>>(bytes@),
            Err(m) => base64_standard_decode(input@) == Err::<Seq<u8>, Seq<char>>(m@),
        },
{
    match base64::prelude::BASE64_STANDARD.decode(input) {
        Ok(bytes) => Ok(bytes),
        Err(e) => Err(format!("{e}")),
    }
}

/// Decodes UTF-8, replacing invalid sequences with U+FFFD.
///
/// Calls `String::from_utf8_lossy`; the contract names its result, a function of the
/// bytes alone.
#[verifier::external_body]
pub(crate) fn from_utf8_lossy(bytes: &[u8]) -> (r: String)
    ensures
        r@ == utf8_lossy(bytes@),
{
    String::from_utf8_lossy(bytes).into_owned()
}

} // verus!
