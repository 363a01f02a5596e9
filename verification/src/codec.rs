//! The boundary to the base64 and UTF-8 decoders.
//!
//! Both decoders are pure functions of their input, so their results are
//! given names that the matching contracts speak of.

use base64::Engine;
use vstd::prelude::*;

verus! {

/// The bytes that standard base64 decoding of `text` yields, or `None` when
/// `text` is not valid base64.
pub uninterp spec fn base64_decoding(text: Seq<char>) -> Option<Seq<u8>>;

/// The characters that UTF-8 decoding of `bytes` yields, or `None` when
/// `bytes` is not valid UTF-8.
pub uninterp spec fn utf8_decoding(bytes: Seq<u8>) -> Option<Seq<char>>;

/// The text that base64 decoding followed by UTF-8 decoding of `text` yields,
/// or `None` when either step fails.
pub open spec fn text_decoding(text: Seq<char>) -> Option<Seq<char>> {
    match base64_decoding(text) {
        Some(b) => utf8_decoding(b),
        None => None,
    }
}

/// Relies on `base64::engine::Engine::decode` with the `STANDARD` engine:
/// the decoded bytes depend on the input text alone.
#[verifier::external_body]
pub(crate) fn base64_decode(text: &str) -> (r: Option<Vec<u8>>)
    ensures
        match (r, base64_decoding(text@)) {
            (Some(v), Some(b)) => v@ == b,
            (None, None) => true,
            _ => false,
        },
{
    base64::engine::general_purpose::STANDARD.decode(text).ok()
}

/// Relies on `String::from_utf8`: success and the resulting characters depend
/// on the bytes alone.
#[verifier::external_body]
pub(crate) fn utf8_decode(bytes: Vec<u8>) -> (r: Option<String>)
    ensures
        match (r, utf8_decoding(bytes@)) {
            (Some(s), Some(cs)) => s@ == cs,
            (None, None) => true,
            _ => false,
        },
{
    String::from_utf8(bytes).ok()
}

} // verus!
