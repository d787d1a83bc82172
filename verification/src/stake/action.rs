//! The two staking actions that change a delegation.

use vstd::prelude::*;
use crate::encoding::{array_of, lemma_array_of, take_32};
use crate::stake::proto;

verus! {

/// The identity of a validator: its 32-byte key.
#[derive(Clone, Copy, Debug, PartialEq, Eq)]
pub struct IdentityKey {
    pub inner: [u8; 32],
}

/// Why a staking action cannot be read.
#[derive(Clone, Copy, Debug, PartialEq, Eq, Structural)]
pub enum StakeError {
    /// The action names no validator.
    MissingValidatorIdentity,
    /// The validator's key is not 32 bytes long.
    InvalidIdentityKey,
}

impl StakeError {
    /// The error as a sentence.
    pub fn message(&self) -> (r: &'static str)
        ensures
            r@ == (match *self {
                StakeError::MissingValidatorIdentity => "missing validator identity"@,
                StakeError::InvalidIdentityKey => "invalid identity key length"@,
            }),
    {
        match self {
            StakeError::MissingValidatorIdentity => "missing validator identity",
            StakeError::InvalidIdentityKey => "invalid identity key length",
        }
    }
}

/// The identity that an optional key of any length reads as.
pub open spec fn spec_read_identity(key: Option<Seq<u8>>) -> Result<IdentityKey, StakeError> {
    match key {
        None => Err(StakeError::MissingValidatorIdentity),
        Some(bytes) => if bytes.len() != 32 {
            Err(StakeError::InvalidIdentityKey)
        } else {
            Ok(IdentityKey { inner: array_of::<32>(bytes) })
        },
    }
}

/// The view of an optional byte string.
pub open spec fn optional_bytes(key: Option<Vec<u8>>) -> Option<Seq<u8>> {
    match key {
        None => None,
        Some(bytes) => Some(bytes@),
    }
}

/// Reads the identity of a validator from a key that may be missing or of
/// the wrong length.
pub fn read_identity(key: &Option<Vec<u8>>) -> (r: Result<IdentityKey, StakeError>)
    ensures
        r == spec_read_identity(optional_bytes(*key)),
{
    match key {
        None => Err(StakeError::MissingValidatorIdentity),
        Some(bytes) => {
            if bytes.len() != 32 {
                Err(StakeError::InvalidIdentityKey)
            } else {
                let inner = take_32(bytes.as_slice(), 0);
                proof {
                    lemma_array_of::<32>(bytes@);
                    assert(inner@ =~= bytes@);
                    assert(inner =~= array_of::<32>(bytes@));
                }
                Ok(IdentityKey { inner })
            }
        },
    }
}

/// Copies the bytes of a key into a byte string.
pub fn identity_bytes(key: &IdentityKey) -> (r: Vec<u8>)
    ensures
        r@ == key.inner@,
{
    let mut r: Vec<u8> = Vec::new();
    let mut i: usize = 0;
    while i < 32
        invariant
            i <= 32,
            r@ == key.inner@.subrange(0, i as int),
        decreases 32 - i,
    {
        r.push(key.inner[i]);
        assert(r@ =~= key.inner@.subrange(0, i + 1));
        i += 1;
    }
    assert(r@ =~= key.inner@);
    r
}

/// A delegation of stake to a validator.
#[derive(Clone, Copy, Debug, PartialEq, Eq)]
pub struct Delegate {
    /// The validator delegated to.
    pub validator_identity: IdentityKey,
    /// The epoch in which the delegation was made.
    pub epoch_index: u64,
    /// The amount of unbonded stake given.
    pub unbonded_amount: u64,
    /// The amount of delegation tokens received.
    pub delegation_amount: u64,
}

/// An undelegation of stake from a validator.
#[derive(Clone, Copy, Debug, PartialEq, Eq)]
pub struct Undelegate {
    /// The validator undelegated from.
    pub validator_identity: IdentityKey,
    /// The epoch in which the undelegation was made.
    pub epoch_index: u64,
    /// The amount of unbonded stake received.
    pub unbonded_amount: u64,
    /// The amount of delegation tokens given.
    pub delegation_amount: u64,
}

impl Delegate {
    /// The delegation that a travelling one reads as.
    pub open spec fn spec_try_from_proto(sent: proto::Delegate) -> Result<Delegate, StakeError> {
        match spec_read_identity(optional_bytes(sent.validator_identity)) {
            Err(e) => Err(e),
            Ok(validator_identity) => Ok(
                Delegate {
                    validator_identity,
                    epoch_index: sent.epoch_index,
                    unbonded_amount: sent.unbonded_amount,
                    delegation_amount: sent.delegation_amount,
                },
            ),
        }
    }

    /// Reads a delegation from the form in which it travels.
    pub fn try_from_proto(sent: &proto::Delegate) -> (r: Result<Delegate, StakeError>)
        ensures
            r == Self::spec_try_from_proto(*sent),
    {
        match read_identity(&sent.validator_identity) {
            Err(e) => Err(e),
            Ok(validator_identity) => Ok(
                Delegate {
                    validator_identity,
                    epoch_index: sent.epoch_index,
                    unbonded_amount: sent.unbonded_amount,
                    delegation_amount: sent.delegation_amount,
                },
            ),
        }
    }

    /// The delegation in the form in which it travels.
    pub fn to_proto(&self) -> (sent: proto::Delegate)
        ensures
            optional_bytes(sent.validator_identity) == Some(self.validator_identity.inner@),
            sent.epoch_index == self.epoch_index,
            sent.unbonded_amount == self.unbonded_amount,
            sent.delegation_amount == self.delegation_amount,
    {
        proto::Delegate {
            validator_identity: Some(identity_bytes(&self.validator_identity)),
            epoch_index: self.epoch_index,
            unbonded_amount: self.unbonded_amount,
            delegation_amount: self.delegation_amount,
        }
    }
}

impl Undelegate {
    /// The undelegation that a travelling one reads as.
    pub open spec fn spec_try_from_proto(sent: proto::Undelegate) -> Result<Undelegate, StakeError> {
        match spec_read_identity(optional_bytes(sent.validator_identity)) {
            Err(e) => Err(e),
            Ok(validator_identity) => Ok(
                Undelegate {
                    validator_identity,
                    epoch_index: sent.epoch_index,
                    unbonded_amount: sent.unbonded_amount,
                    delegation_amount: sent.delegation_amount,
                },
            ),
        }
    }

    /// Reads an undelegation from the form in which it travels.
    pub fn try_from_proto(sent: &proto::Undelegate) -> (r: Result<Undelegate, StakeError>)
        ensures
            r == Self::spec_try_from_proto(*sent),
    {
        match read_identity(&sent.validator_identity) {
            Err(e) => Err(e),
            Ok(validator_identity) => Ok(
                Undelegate {
                    validator_identity,
                    epoch_index: sent.epoch_index,
                    unbonded_amount: sent.unbonded_amount,
                    delegation_amount: sent.delegation_amount,
                },
            ),
        }
    }

    /// The undelegation in the form in which it travels.
    pub fn to_proto(&self) -> (sent: proto::Undelegate)
        ensures
            optional_bytes(sent.validator_identity) == Some(self.validator_identity.inner@),
            sent.epoch_index == self.epoch_index,
            sent.unbonded_amount == self.unbonded_amount,
            sent.delegation_amount == self.delegation_amount,
    {
        proto::Undelegate {
            validator_identity: Some(identity_bytes(&self.validator_identity)),
            epoch_index: self.epoch_index,
            unbonded_amount: self.unbonded_amount,
            delegation_amount: self.delegation_amount,
        }
    }
}

} // verus!
