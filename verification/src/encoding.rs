//! The text encodings around the cipher: base64 from the `base64` crate and
//! UTF-8 from std. Nothing in this module is proved; each contract restates
//! what the outside function documents.

use vstd::prelude::*;
use vstd::utf8::{encode_utf8, valid_utf8};

verus! {

/// The standard, padded base64 text of `bytes`, as
/// `base64::engine::general_purpose::STANDARD` encodes it.
pub uninterp spec fn base64_encoded(bytes: Seq<u8>) -> Seq<char>;

/// The bytes that `base64::engine::general_purpose::STANDARD` decodes `text`
/// to, or `None` where it rejects the text.
pub uninterp spec fn base64_decoded(text: Seq<char>) -> Option<Seq<u8>>;

/// Whether the base64 text of `len` bytes has a length that fits in `usize`.
pub open spec fn base64_encodable(len: nat) -> bool {
    (len / 3 + 1) * 4 <= usize::MAX
}

/// Calls `base64::Engine::encode` on `STANDARD`. The result is the named
/// encoding, and decoding it gives the bytes back: that is the encoding's
/// own property, which the crate implements and its documentation shows by
/// example only. The crate panics where the encoded length overflows
/// `usize`, which the precondition excludes.
#[verifier::external_body]
pub(crate) fn base64_encode(bytes: &[u8]) -> (text: String)
    requires
        base64_encodable(bytes@.len()),
    ensures
        text@ == base64_encoded(bytes@),
        base64_decoded(text@) == Some(bytes@),
{
    base64::Engine::encode(&base64::engine::general_purpose::STANDARD, bytes)
}

/// Calls `base64::Engine::decode` on `STANDARD`. The outcome is the named
/// decoding.
#[verifier::external_body]
pub(crate) fn base64_decode(text: &str) -> (bytes: Option<Vec<u8>>)
    ensures
        bytes matches Some(b) ==> base64_decoded(text@) == Some(b@),
        bytes is None ==> base64_decoded(text@) is None,
{
    base64::Engine::decode(&base64::engine::general_purpose::STANDARD, text).ok()
}

/// Calls `String::from_utf8`: the bytes become a string exactly when they are
/// valid UTF-8, and the string then consists of those bytes.
#[verifier::external_body]
pub(crate) fn string_from_utf8(bytes: Vec<u8>) -> (text: Option<String>)
    ensures
        text matches Some(s) ==> valid_utf8(bytes@) && encode_utf8(s@) == bytes@,
        text is None ==> !valid_utf8(bytes@),
{
    String::from_utf8(bytes).ok()
}

} // verus!
