//! Assets, values, and commitments to balances.

use vstd::prelude::*;
use crate::bytes32::bytes32_eq;
use crate::num::Amount;

verus! {

/// Identifies an asset.
#[derive(Clone, Copy, Debug, PartialEq, Eq)]
pub struct AssetId {
    pub inner: [u8; 32],
}

impl AssetId {
    /// Whether two ids name the same asset.
    pub fn equals(&self, other: &AssetId) -> (r: bool)
        ensures
            r == (*self == *other),
    {
        bytes32_eq(&self.inner, &other.inner)
    }
}

/// An amount of one asset.
#[derive(Clone, Copy, Debug, PartialEq, Eq)]
pub struct Value {
    pub amount: Amount,
    pub asset_id: AssetId,
}

/// A commitment to a balance, in its 32-byte encoding.
#[derive(Clone, Copy, Debug, PartialEq, Eq)]
pub struct BalanceCommitment {
    pub inner: [u8; 32],
}

impl BalanceCommitment {
    /// Whether two commitments are byte for byte the same.
    pub fn equals(&self, other: &BalanceCommitment) -> (r: bool)
        ensures
            r == (*self == *other),
    {
        bytes32_eq(&self.inner, &other.inner)
    }
}

} // verus!
