//! Proposals in the shape in which they travel: every part optional, as the
//! wire format has it.

use vstd::prelude::*;
use crate::governance::params::ChangedAppParameters;

verus! {

/// A message of any type, with the URL that names its type.
#[derive(Clone, Debug, Eq, PartialEq)]
pub struct Any {
    pub type_url: String,
    pub value: Vec<u8>,
}

/// The payload of a proposal as it travels.
#[derive(Clone, Debug, Eq, PartialEq)]
pub enum Payload {
    Signaling { commit: String },
    Emergency { halt_chain: bool },
    ParameterChange {
        old_parameters: Option<ChangedAppParameters>,
        new_parameters: Option<ChangedAppParameters>,
    },
    CommunityPoolSpend { transaction_plan: Option<Any> },
    UpgradePlan { height: u64 },
    FreezeIbcClient { client_id: String },
    UnfreezeIbcClient { client_id: String },
}

/// A proposal as it travels.
#[derive(Clone, Debug, Eq, PartialEq)]
pub struct Proposal {
    pub id: u64,
    pub title: String,
    pub description: String,
    pub payload: Option<Payload>,
}

} // verus!
