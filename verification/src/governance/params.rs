//! The application parameters that a proposal can change.

use vstd::prelude::*;

verus! {

/// Which application parameters are changed, component by component.
///
/// Each component's parameters are held in that component's own encoding:
/// nothing here looks inside them.
#[derive(Clone, Debug, Eq, PartialEq)]
pub struct ChangedAppParameters {
    pub community_pool_params: Option<Vec<u8>>,
    pub distributions_params: Option<Vec<u8>>,
    pub ibc_params: Option<Vec<u8>>,
    pub fee_params: Option<Vec<u8>>,
    pub funding_params: Option<Vec<u8>>,
    pub governance_params: Option<Vec<u8>>,
    pub sct_params: Option<Vec<u8>>,
    pub shielded_pool_params: Option<Vec<u8>>,
    pub stake_params: Option<Vec<u8>>,
    pub dex_params: Option<Vec<u8>>,
}

/// An "old" and a "new" `ChangedAppParameters`, bundled for storage.
#[derive(Clone, Debug)]
pub struct ChangedAppParametersSet {
    pub old: ChangedAppParameters,
    pub new: ChangedAppParameters,
}

/// One of the two halves of a parameter set is missing.
#[derive(Clone, Copy, Debug, PartialEq, Eq, Structural)]
pub enum MissingParameters {
    /// The old parameters are missing.
    Old,
    /// The new parameters are missing.
    New,
}

impl MissingParameters {
    /// The error as a sentence.
    pub fn message(&self) -> (r: &'static str)
        ensures
            r@ == (match *self {
                MissingParameters::Old => "missing old parameters"@,
                MissingParameters::New => "missing new parameters"@,
            }),
    {
        match self {
            MissingParameters::Old => "missing old parameters",
            MissingParameters::New => "missing new parameters",
        }
    }
}

impl ChangedAppParametersSet {
    /// What a stored set, whose halves may be missing, reads as.
    pub open spec fn spec_try_from_proto(
        old: Option<ChangedAppParameters>,
        new: Option<ChangedAppParameters>,
    ) -> Result<ChangedAppParametersSet, MissingParameters> {
        match old {
            None => Err(MissingParameters::Old),
            Some(old) => match new {
                None => Err(MissingParameters::New),
                Some(new) => Ok(ChangedAppParametersSet { old, new }),
            },
        }
    }

    /// Reads a stored set. Both halves must be there; the old one is looked
    /// at first.
    pub fn try_from_proto(old: Option<ChangedAppParameters>, new: Option<ChangedAppParameters>) -> (r:
        Result<ChangedAppParametersSet, MissingParameters>)
        ensures
            r == Self::spec_try_from_proto(old, new),
    {
        match old {
            None => Err(MissingParameters::Old),
            Some(old) => match new {
                None => Err(MissingParameters::New),
                Some(new) => Ok(ChangedAppParametersSet { old, new }),
            },
        }
    }

    /// The set in its stored form: both halves present.
    pub fn to_proto(self) -> (r: (Option<ChangedAppParameters>, Option<ChangedAppParameters>))
        ensures
            r == (Some(self.old), Some(self.new)),
            Self::spec_try_from_proto(r.0, r.1) == Ok::<ChangedAppParametersSet, MissingParameters>(
                self,
            ),
    {
        (Some(self.old), Some(self.new))
    }
}

} // verus!
