//! Bytes as base64 text.

use vstd::prelude::*;

verus! {

/// The bytes that the standard engine of `base64` reads in a text, if the text is base64.
pub uninterp spec fn base64_bytes(text: Seq<char>) -> Option<Seq<u8>>;

/// The text that the standard engine of `base64` writes for bytes.
pub uninterp spec fn base64_text(bytes: Seq<u8>) -> Seq<char>;

/// `base64::Engine::decode` of the standard engine. The claim is that the text alone settles the
/// outcome.
#[verifier::external_body]
pub(crate) fn read_base64(text: &str) -> (r: Option<Vec<u8>>)
    ensures
        match r {
            Some(b) => base64_bytes(text@) == Some(b@),
            None => base64_bytes(text@) is None,
        },
{
    base64::Engine::decode(&base64::engine::general_purpose::STANDARD, text).ok()
}

/// `base64::Engine::encode` of the standard engine. The claims are that the bytes alone settle the
/// text, and that decoding the text gives the bytes back.
#[verifier::external_body]
pub(crate) fn write_base64(bytes: &Vec<u8>) -> (r: String)
    ensures
        r@ == base64_text(bytes@),
        base64_bytes(r@) == Some(bytes@),
{
    base64::Engine::encode(&base64::engine::general_purpose::STANDARD, bytes)
}

} // verus!
