//! The two primitives under the payload encryption: a personalised hash
//! and an authenticated cipher. Neither is verified here; what is assumed
//! of each is stated at its wrapper.

use chacha20poly1305::aead::{Aead, KeyInit};
use vstd::prelude::*;

verus! {

/// The BLAKE2b digest of `input`, `length` bytes long, under the
/// personalisation `personal`.
pub uninterp spec fn blake2b_personal(personal: Seq<u8>, length: nat, input: Seq<u8>) -> Seq<u8>;

/// What ChaCha20-Poly1305 opens `ciphertext` to under `key` and `nonce`,
/// with no associated data: the plaintext, or `None` where the ciphertext
/// does not authenticate.
pub uninterp spec fn chacha20poly1305_open(key: Seq<u8>, nonce: Seq<u8>, ciphertext: Seq<u8>)
    -> Option<Seq<u8>>;

/// The error of the authenticated cipher. It carries no information.
#[verifier::external_type_specification]
#[verifier::external_body]
pub struct ExAeadError(chacha20poly1305::aead::Error);

/// Calls `blake2b_simd::Params::hash` with the given personalisation and
/// digest length and every other parameter at its default.
///
/// Assumed: the digest is a function of the three arguments alone, and it
/// is `length` bytes long. The crate panics on a personalisation of more
/// than 16 bytes and on a length outside `1 ..= 64`.
#[verifier::external_body]
pub(crate) fn blake2b_hash(personal: &[u8], length: usize, input: &[u8]) -> (digest: Vec<u8>)
    requires
        personal@.len() <= 16,
        1 <= length <= 64,
    ensures
        digest@ == blake2b_personal(personal@, length as nat, input@),
        digest@.len() == length,
{
    blake2b_simd::Params::new()
        .personal(personal)
        .hash_length(length)
        .hash(input)
        .as_bytes()
        .to_vec()
}

/// Calls `chacha20poly1305::ChaCha20Poly1305::decrypt`
/// (the `aead::Aead` method) on a cipher made from `key`.
///
/// Assumed: whether the call succeeds, and the plaintext it returns, are a
/// function of key, nonce and ciphertext alone. Key and nonce have the
/// lengths that the crate asks for, so that it does not panic on them.
#[verifier::external_body]
pub(crate) fn aead_open(key: &[u8; 32], nonce: &[u8; 12], ciphertext: &[u8]) -> (opened: Result<
    Vec<u8>,
    chacha20poly1305::aead::Error,
>)
    ensures
        opened matches Ok(plaintext) ==> chacha20poly1305_open(key@, nonce@, ciphertext@) == Some(
            plaintext@,
        ),
        opened is Err ==> chacha20poly1305_open(key@, nonce@, ciphertext@) is None,
{
    let cipher = chacha20poly1305::ChaCha20Poly1305::new(chacha20poly1305::Key::from_slice(key));
    cipher.decrypt(chacha20poly1305::Nonce::from_slice(nonce), ciphertext)
}

} // verus!
