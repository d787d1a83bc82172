//! Base64 text, in the standard alphabet with padding. The coding itself
//! is left to the `base64` crate; what is assumed of it is stated at the
//! two wrappers.

use base64::Engine;
use vstd::prelude::*;

verus! {

/// The standard base64 text of `bytes`, with padding.
pub uninterp spec fn base64_standard_encode(bytes: Seq<u8>) -> Seq<char>;

/// The bytes that `text` spells in standard base64 with padding, or `None`
/// where it spells none.
pub uninterp spec fn base64_standard_decode(text: Seq<char>) -> Option<Seq<u8>>;

/// Why a text is not base64.
#[verifier::external_type_specification]
#[verifier::external_body]
pub struct ExDecodeError(base64::DecodeError);

/// Whether the base64 text of `len` bytes has a length that fits `usize`.
pub open spec fn encodable_len(len: nat) -> bool {
    len / 3 * 4 + 4 <= usize::MAX
}

/// Calls `base64::Engine::encode` on the `STANDARD` engine.
///
/// Assumed: the text is a function of the bytes alone. The crate panics
/// where the length of the text would not fit `usize`.
#[verifier::external_body]
pub(crate) fn encode_standard(bytes: &[u8]) -> (text: String)
    requires
        encodable_len(bytes@.len()),
    ensures
        text@ == base64_standard_encode(bytes@),
{
    base64::engine::general_purpose::STANDARD.encode(bytes)
}

/// Calls `base64::Engine::decode` on the `STANDARD` engine.
///
/// Assumed: whether the call succeeds, and the bytes it returns, are a
/// function of the text alone.
#[verifier::external_body]
pub(crate) fn decode_standard(text: &str) -> (decoded: Result<Vec<u8>, base64::DecodeError>)
    ensures
        decoded matches Ok(bytes) ==> base64_standard_decode(text@) == Some(bytes@),
        decoded is Err ==> base64_standard_decode(text@) is None,
{
    base64::engine::general_purpose::STANDARD.decode(text)
}

} // verus!
