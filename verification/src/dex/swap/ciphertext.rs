//! Swap ciphertexts and how they are opened.

use vstd::prelude::*;
use vstd::std_specs::convert::TryFromSpecImpl;
use crate::dex::swap::{SwapError, SwapKey, SwapPlaintext, SWAP_CIPHERTEXT_BYTES, SWAP_LEN_BYTES};
use crate::encoding::{array_of, lemma_array_of};
use crate::keys::OutgoingViewingKey;
use crate::note;

verus! {

/// A sealed swap.
#[derive(Debug, Clone)]
pub struct SwapCiphertext(pub [u8; SWAP_CIPHERTEXT_BYTES]);

/// What an opened ciphertext yields: the swap that the plaintext spells,
/// or the reason why there is none.
pub open spec fn spec_plaintext_from_opened(opened: Option<Seq<u8>>) -> Result<
    SwapPlaintext,
    SwapError,
> {
    match opened {
        None => Err(SwapError::DecryptionFailed),
        Some(plaintext) => if plaintext.len() != SWAP_LEN_BYTES {
            Err(SwapError::PlaintextLength)
        } else {
            match SwapPlaintext::spec_parse(plaintext) {
                Some(swap) => Ok(swap),
                None => Err(SwapError::MalformedPlaintext),
            }
        },
    }
}

/// Turns the outcome of opening a swap ciphertext into the swap, or into
/// the error that says at which step it was lost.
pub fn plaintext_from_opened(opened: Option<Vec<u8>>) -> (r: Result<SwapPlaintext, SwapError>)
    ensures
        r == spec_plaintext_from_opened(
            match opened {
                Some(plaintext) => Some(plaintext@),
                None => None,
            },
        ),
{
    match opened {
        None => Err(SwapError::DecryptionFailed),
        Some(plaintext) => {
            if plaintext.len() != SWAP_LEN_BYTES {
                Err(SwapError::PlaintextLength)
            } else {
                match SwapPlaintext::parse(plaintext.as_slice()) {
                    Some(swap) => Ok(swap),
                    None => Err(SwapError::MalformedPlaintext),
                }
            }
        },
    }
}

impl SwapCiphertext {
    /// What `swap_key` makes of this ciphertext.
    pub open spec fn spec_decrypt_with_swap_key(
        self,
        swap_key: SwapKey,
        commitment: note::Commitment,
    ) -> Result<SwapPlaintext, SwapError> {
        spec_plaintext_from_opened(swap_key.spec_decrypt(self.0@, commitment))
    }

    /// Opens the ciphertext with the key derived from `ovk` and
    /// `commitment`.
    pub fn decrypt(&self, ovk: &OutgoingViewingKey, commitment: note::Commitment) -> (r: Result<
        SwapPlaintext,
        SwapError,
    >)
        ensures
            r == self.spec_decrypt_with_swap_key(
                SwapKey { inner: array_of::<32>(SwapKey::spec_derive(*ovk, commitment)) },
                commitment,
            ),
    {
        let swap_key = SwapKey::derive(ovk, commitment);
        proof {
            let bytes = SwapKey::spec_derive(*ovk, commitment);
            lemma_array_of::<32>(bytes);
            assert(swap_key.inner =~= array_of::<32>(bytes));
        }
        self.decrypt_with_swap_key(&swap_key, commitment)
    }

    /// Opens the ciphertext with `swap_key`: decrypts it, checks the length
    /// of what comes out, and reads the swap from it.
    pub fn decrypt_with_swap_key(&self, swap_key: &SwapKey, commitment: note::Commitment) -> (r:
        Result<SwapPlaintext, SwapError>)
        ensures
            r == self.spec_decrypt_with_swap_key(*swap_key, commitment),
    {
        let mut bytes: Vec<u8> = Vec::new();
        let mut i: usize = 0;
        while i < SWAP_CIPHERTEXT_BYTES
            invariant
                i <= SWAP_CIPHERTEXT_BYTES,
                bytes@ == self.0@.subrange(0, i as int),
            decreases SWAP_CIPHERTEXT_BYTES - i,
        {
            bytes.push(self.0[i]);
            assert(bytes@ =~= self.0@.subrange(0, i + 1));
            i += 1;
        }
        assert(bytes@ =~= self.0@);
        let opened = swap_key.decrypt(bytes, commitment);
        plaintext_from_opened(opened)
    }

    /// The ciphertext that holds `bytes`.
    pub fn from_bytes(bytes: [u8; SWAP_CIPHERTEXT_BYTES]) -> (r: SwapCiphertext)
        ensures
            r.0 == bytes,
    {
        SwapCiphertext(bytes)
    }

    /// The ciphertext that holds the bytes of `slice`, which must have the
    /// length of one.
    pub fn from_slice(slice: &[u8]) -> (r: Result<SwapCiphertext, SwapError>)
        ensures
            r is Ok <==> slice@.len() == SWAP_CIPHERTEXT_BYTES,
            r matches Ok(ciphertext) ==> ciphertext.0@ == slice@,
            r matches Err(e) ==> e == SwapError::CiphertextLength,
    {
        if slice.len() != SWAP_CIPHERTEXT_BYTES {
            return Err(SwapError::CiphertextLength);
        }
        let mut bytes: [u8; SWAP_CIPHERTEXT_BYTES] = [0u8; SWAP_CIPHERTEXT_BYTES];
        let mut i: usize = 0;
        while i < SWAP_CIPHERTEXT_BYTES
            invariant
                i <= SWAP_CIPHERTEXT_BYTES,
                slice@.len() == SWAP_CIPHERTEXT_BYTES,
                forall|j: int| 0 <= j < i ==> bytes@[j] == slice@[j],
            decreases SWAP_CIPHERTEXT_BYTES - i,
        {
            bytes[i] = slice[i];
            i += 1;
        }
        assert(bytes@ =~= slice@);
        Ok(SwapCiphertext(bytes))
    }
}

impl TryFrom<[u8; SWAP_CIPHERTEXT_BYTES]> for SwapCiphertext {
    type Error = SwapError;

    fn try_from(bytes: [u8; SWAP_CIPHERTEXT_BYTES]) -> (r: Result<SwapCiphertext, Self::Error>) {
        Ok(SwapCiphertext(bytes))
    }
}

impl TryFromSpecImpl<[u8; SWAP_CIPHERTEXT_BYTES]> for SwapCiphertext {
    open spec fn obeys_try_from_spec() -> bool {
        true
    }

    open spec fn try_from_spec(bytes: [u8; SWAP_CIPHERTEXT_BYTES]) -> Result<
        SwapCiphertext,
        SwapError,
    > {
        Ok(SwapCiphertext(bytes))
    }
}

impl<'a> TryFrom<&'a [u8]> for SwapCiphertext {
    type Error = SwapError;

    fn try_from(slice: &'a [u8]) -> (r: Result<SwapCiphertext, Self::Error>) {
        let r = SwapCiphertext::from_slice(slice);
        proof {
            if slice@.len() == SWAP_CIPHERTEXT_BYTES {
                lemma_array_of::<SWAP_CIPHERTEXT_BYTES>(slice@);
                assert(r->Ok_0.0 =~= array_of::<SWAP_CIPHERTEXT_BYTES>(slice@));
            }
        }
        r
    }
}

impl<'a> TryFromSpecImpl<&'a [u8]> for SwapCiphertext {
    open spec fn obeys_try_from_spec() -> bool {
        true
    }

    open spec fn try_from_spec(slice: &'a [u8]) -> Result<SwapCiphertext, SwapError> {
        if slice@.len() == SWAP_CIPHERTEXT_BYTES {
            Ok(SwapCiphertext(array_of::<SWAP_CIPHERTEXT_BYTES>(slice@)))
        } else {
            Err(SwapError::CiphertextLength)
        }
    }
}

} // verus!
