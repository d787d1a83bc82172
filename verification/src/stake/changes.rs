//! Delegation changes queued for the epoch boundary.

use vstd::prelude::*;
use crate::stake::action::{optional_bytes, Delegate, StakeError, Undelegate};
use crate::stake::proto;

verus! {

/// Data structure used to track queued delegation changes that have been
/// committed to the chain but not yet processed at the epoch boundary.
#[derive(Debug, Clone, Default)]
pub struct DelegationChanges {
    pub delegations: Vec<Delegate>,
    pub undelegations: Vec<Undelegate>,
}

/// The first error among the first `upto` travelling delegations, if any
/// of them cannot be read.
pub open spec fn first_delegate_error(sent: Seq<proto::Delegate>, upto: int) -> Option<StakeError>
    decreases upto,
{
    if upto <= 0 {
        None
    } else {
        match first_delegate_error(sent, upto - 1) {
            Some(e) => Some(e),
            None => match Delegate::spec_try_from_proto(sent[upto - 1]) {
                Err(e) => Some(e),
                Ok(_) => None,
            },
        }
    }
}

/// The first error among the first `upto` travelling undelegations, if any
/// of them cannot be read.
pub open spec fn first_undelegate_error(sent: Seq<proto::Undelegate>, upto: int) -> Option<
    StakeError,
>
    decreases upto,
{
    if upto <= 0 {
        None
    } else {
        match first_undelegate_error(sent, upto - 1) {
            Some(e) => Some(e),
            None => match Undelegate::spec_try_from_proto(sent[upto - 1]) {
                Err(e) => Some(e),
                Ok(_) => None,
            },
        }
    }
}

impl DelegationChanges {
    /// The first error in travelling changes: that of the first delegation
    /// that cannot be read, or else that of the first such undelegation.
    pub open spec fn proto_defect(sent: proto::DelegationChanges) -> Option<StakeError> {
        match first_delegate_error(sent.delegations@, sent.delegations@.len() as int) {
            Some(e) => Some(e),
            None => first_undelegate_error(sent.undelegations@, sent.undelegations@.len() as int),
        }
    }

    /// Whether `self` is what the travelling changes read as: every
    /// delegation and undelegation, read one by one, in order.
    pub open spec fn reads_from(self, sent: proto::DelegationChanges) -> bool {
        &&& self.delegations@.len() == sent.delegations@.len()
        &&& forall|i: int|
            0 <= i < self.delegations@.len() ==> Delegate::spec_try_from_proto(
                sent.delegations@[i],
            ) == Ok::<Delegate, StakeError>(#[trigger] self.delegations@[i])
        &&& self.undelegations@.len() == sent.undelegations@.len()
        &&& forall|i: int|
            0 <= i < self.undelegations@.len() ==> Undelegate::spec_try_from_proto(
                sent.undelegations@[i],
            ) == Ok::<Undelegate, StakeError>(#[trigger] self.undelegations@[i])
    }

    /// Reads queued changes from the form in which they travel. The first
    /// action that cannot be read decides the error.
    pub fn try_from_proto(sent: &proto::DelegationChanges) -> (r: Result<
        DelegationChanges,
        StakeError,
    >)
        ensures
            match r {
                Ok(changes) => Self::proto_defect(*sent) is None && changes.reads_from(*sent),
                Err(e) => Self::proto_defect(*sent) == Some(e),
            },
    {
        let mut delegations: Vec<Delegate> = Vec::new();
        let mut i: usize = 0;
        while i < sent.delegations.len()
            invariant
                i <= sent.delegations@.len(),
                delegations@.len() == i,
                first_delegate_error(sent.delegations@, i as int) is None,
                forall|k: int|
                    0 <= k < i ==> Delegate::spec_try_from_proto(sent.delegations@[k]) == Ok::<
                        Delegate,
                        StakeError,
                    >(#[trigger] delegations@[k]),
            decreases sent.delegations@.len() - i,
        {
            match Delegate::try_from_proto(&sent.delegations[i]) {
                Ok(delegate) => {
                    delegations.push(delegate);
                },
                Err(e) => {
                    proof {
                        lemma_delegate_error_stays(
                            sent.delegations@,
                            i + 1,
                            sent.delegations@.len() as int,
                        );
                    }
                    return Err(e);
                },
            }
            i += 1;
        }
        let mut undelegations: Vec<Undelegate> = Vec::new();
        let mut j: usize = 0;
        while j < sent.undelegations.len()
            invariant
                j <= sent.undelegations@.len(),
                undelegations@.len() == j,
                first_delegate_error(sent.delegations@, sent.delegations@.len() as int) is None,
                first_undelegate_error(sent.undelegations@, j as int) is None,
                forall|k: int|
                    0 <= k < j ==> Undelegate::spec_try_from_proto(sent.undelegations@[k]) == Ok::<
                        Undelegate,
                        StakeError,
                    >(#[trigger] undelegations@[k]),
            decreases sent.undelegations@.len() - j,
        {
            match Undelegate::try_from_proto(&sent.undelegations[j]) {
                Ok(undelegate) => {
                    undelegations.push(undelegate);
                },
                Err(e) => {
                    proof {
                        lemma_undelegate_error_stays(
                            sent.undelegations@,
                            j + 1,
                            sent.undelegations@.len() as int,
                        );
                    }
                    return Err(e);
                },
            }
            j += 1;
        }
        Ok(DelegationChanges { delegations, undelegations })
    }

    /// The queued changes in the form in which they travel.
    pub fn to_proto(&self) -> (sent: proto::DelegationChanges)
        ensures
            sent.delegations@.len() == self.delegations@.len(),
            forall|i: int|
                0 <= i < self.delegations@.len() ==> {
                    &&& optional_bytes((#[trigger] sent.delegations@[i]).validator_identity)
                        == Some(self.delegations@[i].validator_identity.inner@)
                    &&& sent.delegations@[i].epoch_index == self.delegations@[i].epoch_index
                    &&& sent.delegations@[i].unbonded_amount
                        == self.delegations@[i].unbonded_amount
                    &&& sent.delegations@[i].delegation_amount
                        == self.delegations@[i].delegation_amount
                },
            sent.undelegations@.len() == self.undelegations@.len(),
            forall|i: int|
                0 <= i < self.undelegations@.len() ==> {
                    &&& optional_bytes((#[trigger] sent.undelegations@[i]).validator_identity)
                        == Some(self.undelegations@[i].validator_identity.inner@)
                    &&& sent.undelegations@[i].epoch_index == self.undelegations@[i].epoch_index
                    &&& sent.undelegations@[i].unbonded_amount
                        == self.undelegations@[i].unbonded_amount
                    &&& sent.undelegations@[i].delegation_amount
                        == self.undelegations@[i].delegation_amount
                },
    {
        let mut delegations: Vec<proto::Delegate> = Vec::new();
        let mut i: usize = 0;
        while i < self.delegations.len()
            invariant
                i <= self.delegations@.len(),
                delegations@.len() == i,
                forall|k: int|
                    0 <= k < i ==> {
                        &&& optional_bytes((#[trigger] delegations@[k]).validator_identity)
                            == Some(self.delegations@[k].validator_identity.inner@)
                        &&& delegations@[k].epoch_index == self.delegations@[k].epoch_index
                        &&& delegations@[k].unbonded_amount == self.delegations@[k].unbonded_amount
                        &&& delegations@[k].delegation_amount
                            == self.delegations@[k].delegation_amount
                    },
            decreases self.delegations@.len() - i,
        {
            delegations.push(self.delegations[i].to_proto());
            i += 1;
        }
        let mut undelegations: Vec<proto::Undelegate> = Vec::new();
        let mut j: usize = 0;
        while j < self.undelegations.len()
            invariant
                j <= self.undelegations@.len(),
                undelegations@.len() == j,
                forall|k: int|
                    0 <= k < j ==> {
                        &&& optional_bytes((#[trigger] undelegations@[k]).validator_identity)
                            == Some(self.undelegations@[k].validator_identity.inner@)
                        &&& undelegations@[k].epoch_index == self.undelegations@[k].epoch_index
                        &&& undelegations@[k].unbonded_amount
                            == self.undelegations@[k].unbonded_amount
                        &&& undelegations@[k].delegation_amount
                            == self.undelegations@[k].delegation_amount
                    },
            decreases self.undelegations@.len() - j,
        {
            undelegations.push(self.undelegations[j].to_proto());
            j += 1;
        }
        proto::DelegationChanges { delegations, undelegations }
    }
}

proof fn lemma_delegate_error_stays(sent: Seq<proto::Delegate>, from: int, upto: int)
    requires
        0 <= from <= upto,
        first_delegate_error(sent, from) is Some,
    ensures
        first_delegate_error(sent, upto) == first_delegate_error(sent, from),
    decreases upto - from,
{
    if from < upto {
        lemma_delegate_error_stays(sent, from, upto - 1);
    }
}

proof fn lemma_undelegate_error_stays(sent: Seq<proto::Undelegate>, from: int, upto: int)
    requires
        0 <= from <= upto,
        first_undelegate_error(sent, from) is Some,
    ensures
        first_undelegate_error(sent, upto) == first_undelegate_error(sent, from),
    decreases upto - from,
{
    if from < upto {
        lemma_undelegate_error_stays(sent, from, upto - 1);
    }
}

} // verus!
