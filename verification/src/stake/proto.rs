//! Delegations in the shape in which they travel.

use vstd::prelude::*;

verus! {

/// A delegation as it travels. The validator's identity may be missing,
/// and its key may have any length.
#[derive(Clone, Debug, Eq, PartialEq)]
pub struct Delegate {
    pub validator_identity: Option<Vec<u8>>,
    pub epoch_index: u64,
    pub unbonded_amount: u64,
    pub delegation_amount: u64,
}

/// An undelegation as it travels.
#[derive(Clone, Debug, Eq, PartialEq)]
pub struct Undelegate {
    pub validator_identity: Option<Vec<u8>>,
    pub epoch_index: u64,
    pub unbonded_amount: u64,
    pub delegation_amount: u64,
}

/// Queued delegation changes as they travel.
#[derive(Clone, Debug, Eq, PartialEq)]
pub struct DelegationChanges {
    pub delegations: Vec<Delegate>,
    pub undelegations: Vec<Undelegate>,
}

} // verus!
