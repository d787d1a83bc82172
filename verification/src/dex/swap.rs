//! Swaps: the key that seals a swap's plaintext, and the plaintext itself.

use vstd::prelude::*;
use crate::asset::AssetId;
use crate::bytes32::{bytes32_precedes, precedes};
use crate::encoding::{array_of, le_value, lemma_array_of, read_u64_le, take_32};
use crate::keys::OutgoingViewingKey;
use crate::note;
use crate::symmetric::{aead_open, blake2b_hash, blake2b_personal, chacha20poly1305_open};

pub mod ciphertext;

verus! {

/// The length of a swap's plaintext in bytes.
pub const SWAP_LEN_BYTES: usize = 168;

/// The length of a swap's ciphertext in bytes: the plaintext and the
/// 16-byte authentication tag.
pub const SWAP_CIPHERTEXT_BYTES: usize = 184;

/// The length of a claim address in bytes.
pub const CLAIM_ADDRESS_BYTES: usize = 80;

/// The personalisation of the hash that derives a swap key.
pub const SWAP_KEY_PERSONAL: [u8; 16] = [
    80, 101, 110, 117, 109, 98, 114, 97, 95, 80, 97, 121, 115, 119, 97, 112,
];

/// What can go wrong when a swap ciphertext is opened.
#[derive(Clone, Copy, Debug, PartialEq, Eq, Structural)]
pub enum SwapError {
    /// The ciphertext does not authenticate under the key.
    DecryptionFailed,
    /// The opened plaintext does not have the length of a swap plaintext.
    PlaintextLength,
    /// The plaintext does not spell a swap.
    MalformedPlaintext,
    /// The bytes do not have the length of a swap ciphertext.
    CiphertextLength,
}

/// The symmetric key that seals one swap.
#[derive(Clone, Copy, Debug, PartialEq, Eq)]
pub struct SwapKey {
    pub inner: [u8; 32],
}

impl SwapKey {
    /// The key bytes derived from a viewing key and a note commitment: the
    /// personalised 32-byte hash of the one followed by the other.
    pub open spec fn spec_derive(ovk: OutgoingViewingKey, commitment: note::Commitment) -> Seq<
        u8,
    > {
        blake2b_personal(SWAP_KEY_PERSONAL@, 32, ovk.inner@ + commitment.inner@)
    }

    /// The nonce under which the swap committed to by `commitment` is
    /// sealed: the first twelve bytes of the commitment.
    pub open spec fn nonce(commitment: note::Commitment) -> Seq<u8> {
        commitment.inner@.subrange(0, 12)
    }

    /// What this key opens `ciphertext` to, for the swap committed to by
    /// `commitment`.
    pub open spec fn spec_decrypt(self, ciphertext: Seq<u8>, commitment: note::Commitment)
        -> Option<Seq<u8>> {
        chacha20poly1305_open(self.inner@, Self::nonce(commitment), ciphertext)
    }

    /// Derives the key that seals the swap committed to by `commitment`,
    /// for the holder of `ovk`.
    pub fn derive(ovk: &OutgoingViewingKey, commitment: note::Commitment) -> (key: SwapKey)
        ensures
            key.inner@ == Self::spec_derive(*ovk, commitment),
    {
        let mut input: Vec<u8> = Vec::new();
        let mut i: usize = 0;
        while i < 32
            invariant
                i <= 32,
                input@ == ovk.inner@.subrange(0, i as int),
            decreases 32 - i,
        {
            input.push(ovk.inner[i]);
            assert(input@ =~= ovk.inner@.subrange(0, i + 1));
            i += 1;
        }
        assert(input@ =~= ovk.inner@);
        i = 0;
        while i < 32
            invariant
                i <= 32,
                input@ == ovk.inner@ + commitment.inner@.subrange(0, i as int),
            decreases 32 - i,
        {
            input.push(commitment.inner[i]);
            assert(input@ =~= ovk.inner@ + commitment.inner@.subrange(0, i + 1));
            i += 1;
        }
        assert(input@ =~= ovk.inner@ + commitment.inner@);
        let digest = blake2b_hash(&SWAP_KEY_PERSONAL, 32, input.as_slice());
        let inner = take_32(digest.as_slice(), 0);
        assert(inner@ =~= digest@);
        SwapKey { inner }
    }

    /// Opens `ciphertext` for the swap committed to by `commitment`.
    /// `None` where it does not authenticate under this key.
    pub fn decrypt(&self, ciphertext: Vec<u8>, commitment: note::Commitment) -> (opened: Option<
        Vec<u8>,
    >)
        ensures
            opened is Some <==> self.spec_decrypt(ciphertext@, commitment) is Some,
            opened matches Some(plaintext) ==> self.spec_decrypt(ciphertext@, commitment) == Some(
                plaintext@,
            ),
    {
        let mut nonce: [u8; 12] = [0u8; 12];
        let mut i: usize = 0;
        while i < 12
            invariant
                i <= 12,
                forall|j: int| 0 <= j < i ==> nonce@[j] == commitment.inner@[j],
            decreases 12 - i,
        {
            nonce[i] = commitment.inner[i];
            i += 1;
        }
        assert(nonce@ =~= Self::nonce(commitment));
        match aead_open(&self.inner, &nonce, ciphertext.as_slice()) {
            Ok(plaintext) => Some(plaintext),
            Err(_) => None,
        }
    }
}

/// The two assets of a swap, in ascending byte order.
#[derive(Clone, Copy, Debug, PartialEq, Eq)]
pub struct TradingPair {
    pub asset_1: AssetId,
    pub asset_2: AssetId,
}

impl TradingPair {
    /// The invariant of a trading pair: two distinct assets, the first
    /// before the second in byte order.
    pub open spec fn canonical(self) -> bool {
        precedes(self.asset_1.inner@, self.asset_2.inner@)
    }
}

/// What a swap says in the clear once its ciphertext is opened.
#[derive(Clone, Copy, Debug, PartialEq, Eq)]
pub struct SwapPlaintext {
    /// The two assets being swapped.
    pub trading_pair: TradingPair,
    /// The amount of the first asset that is put in.
    pub delta_1: u64,
    /// The amount of the second asset that is put in.
    pub delta_2: u64,
    /// The fee prepaid for claiming the swap's outputs.
    pub fee: u64,
    /// The address that the outputs go to.
    pub claim_address: [u8; CLAIM_ADDRESS_BYTES],
}

impl SwapPlaintext {
    /// The swap that `bytes` spell: the two assets (32 bytes each), the two
    /// amounts and the fee (8 bytes each, little-endian), and the claim
    /// address (80 bytes). `None` where the length is wrong or the assets are
    /// not in ascending order.
    pub open spec fn spec_parse(bytes: Seq<u8>) -> Option<SwapPlaintext> {
        if bytes.len() != SWAP_LEN_BYTES || !precedes(bytes.subrange(0, 32), bytes.subrange(32, 64)) {
            None
        } else {
            Some(Self::spec_fields(bytes))
        }
    }

    /// The fields that `bytes` hold, read at their fixed places.
    pub open spec fn spec_fields(bytes: Seq<u8>) -> SwapPlaintext {
        SwapPlaintext {
            trading_pair: TradingPair {
                asset_1: AssetId { inner: array_of::<32>(bytes.subrange(0, 32)) },
                asset_2: AssetId { inner: array_of::<32>(bytes.subrange(32, 64)) },
            },
            delta_1: le_value(bytes.subrange(64, 72)) as u64,
            delta_2: le_value(bytes.subrange(72, 80)) as u64,
            fee: le_value(bytes.subrange(80, 88)) as u64,
            claim_address: array_of::<80>(bytes.subrange(88, 168)),
        }
    }

    /// Reads a swap out of its plaintext bytes.
    pub fn parse(bytes: &[u8]) -> (r: Option<SwapPlaintext>)
        ensures
            r == Self::spec_parse(bytes@),
            r matches Some(swap) ==> swap.trading_pair.canonical(),
    {
        if bytes.len() != SWAP_LEN_BYTES {
            return None;
        }
        let asset_1 = take_32(bytes, 0);
        let asset_2 = take_32(bytes, 32);
        if !bytes32_precedes(&asset_1, &asset_2) {
            return None;
        }
        let mut claim_address: [u8; CLAIM_ADDRESS_BYTES] = [0u8; CLAIM_ADDRESS_BYTES];
        let mut i: usize = 0;
        while i < CLAIM_ADDRESS_BYTES
            invariant
                i <= CLAIM_ADDRESS_BYTES,
                bytes@.len() == SWAP_LEN_BYTES,
                forall|j: int| 0 <= j < i ==> claim_address@[j] == bytes@[88 + j],
            decreases CLAIM_ADDRESS_BYTES - i,
        {
            claim_address[i] = bytes[88 + i];
            i += 1;
        }
        let swap = SwapPlaintext {
            trading_pair: TradingPair {
                asset_1: AssetId { inner: asset_1 },
                asset_2: AssetId { inner: asset_2 },
            },
            delta_1: read_u64_le(bytes, 64),
            delta_2: read_u64_le(bytes, 72),
            fee: read_u64_le(bytes, 80),
            claim_address,
        };
        proof {
            let want = Self::spec_fields(bytes@);
            lemma_array_of::<32>(bytes@.subrange(0, 32));
            lemma_array_of::<32>(bytes@.subrange(32, 64));
            lemma_array_of::<80>(bytes@.subrange(88, 168));
            assert(asset_1 =~= want.trading_pair.asset_1.inner);
            assert(asset_2 =~= want.trading_pair.asset_2.inner);
            assert(claim_address@ =~= bytes@.subrange(88, 168));
            assert(claim_address =~= want.claim_address);
        }
        Some(swap)
    }
}

} // verus!
