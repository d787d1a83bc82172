//! Auction identifiers and the bearer token that goes with them.

use vstd::prelude::*;
use crate::bytes32::{bytes32_eq, bytes32_precedes, precedes};
use crate::encoding::take_32;
use crate::symmetric::{blake2b_hash, blake2b_personal};

verus! {

/// Identifies an auction. It is derived once, from the auction's immutable
/// description, by a domain-separated hash, and is never changed afterwards.
#[derive(Clone, Copy, Debug, PartialEq, Eq)]
pub struct AuctionId {
    pub inner: [u8; 32],
}

/// The domain separator of auction ids: the personalisation of the hash
/// that derives them.
pub const AUCTION_ID_PERSONAL: [u8; 15] = [
    112, 101, 110, 117, 109, 98, 114, 97, 95, 68, 65, 95, 110, 102, 116,
];

impl AuctionId {
    /// The id of the auction whose description is serialized as `encoded`:
    /// the first 32 bytes of the personalised hash of the serialization.
    pub open spec fn spec_derive(encoded: Seq<u8>) -> Seq<u8> {
        blake2b_personal(AUCTION_ID_PERSONAL@, 64, encoded).subrange(0, 32)
    }

    /// Derives the id of an auction from the serialization of its
    /// description. Descriptions that serialize alike get one id; the
    /// nonce of a description is there to make them differ.
    pub fn derive(encoded_description: &[u8]) -> (id: AuctionId)
        ensures
            id.inner@ == Self::spec_derive(encoded_description@),
    {
        let digest = blake2b_hash(&AUCTION_ID_PERSONAL, 64, encoded_description);
        AuctionId { inner: take_32(digest.as_slice(), 0) }
    }

    /// Byte order on auction ids: the total order in which auctions that
    /// share a height are processed.
    pub open spec fn before(self, other: AuctionId) -> bool {
        precedes(self.inner@, other.inner@)
    }

    /// Whether two ids name the same auction.
    pub fn equals(&self, other: &AuctionId) -> (r: bool)
        ensures
            r == (*self == *other),
    {
        bytes32_eq(&self.inner, &other.inner)
    }

    /// Whether this id comes before `other` in byte order.
    pub fn precedes(&self, other: &AuctionId) -> (r: bool)
        ensures
            r == self.before(*other),
    {
        bytes32_precedes(&self.inner, &other.inner)
    }
}

/// The bearer token of an auction: whoever presents the auction's id with
/// its current sequence number may act on it.
#[derive(Clone, Copy, Debug, PartialEq, Eq)]
pub struct AuctionNft {
    pub id: AuctionId,
    pub seq: u64,
}

impl AuctionNft {
    /// The token for `id` at sequence number `seq`.
    pub fn new(id: AuctionId, seq: u64) -> (r: AuctionNft)
        ensures
            r.id == id,
            r.seq == seq,
    {
        AuctionNft { id, seq }
    }
}

} // verus!
