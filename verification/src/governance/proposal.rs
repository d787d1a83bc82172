//! Proposals, their kinds, and their three forms: the proposal itself, the
//! form in which it travels, and the form in which people write it.

use std::str::FromStr;
use vstd::prelude::*;
use vstd::string::StringExecFns;
use crate::governance::params::ChangedAppParameters;
use crate::governance::proto;
use crate::radix64::{
    base64_standard_decode, base64_standard_encode, decode_standard, encodable_len,
    encode_standard,
};
use crate::text::str_equals;

verus! {

/// A governance proposal.
#[derive(Debug, Clone, PartialEq, Eq)]
pub struct Proposal {
    /// The ID number of the proposal.
    pub id: u64,
    /// A short title describing the intent of the proposal.
    pub title: String,
    /// A natural-language description of the effect of the proposal and its
    /// justification.
    pub description: String,
    /// The specific kind and attributes of the proposal.
    pub payload: ProposalPayload,
}

/// The type URL of a transaction plan.
pub const TRANSACTION_PLAN_TYPE_URL: &'static str = "/penumbra.core.transaction.v1.TransactionPlan";

/// A proposal in the form in which people write it.
#[derive(Debug, Clone)]
pub struct ProposalToml {
    pub id: u64,
    pub title: String,
    pub description: String,
    pub payload: ProposalPayloadToml,
}

/// The specific kind of a proposal.
#[derive(Debug, Clone, Copy, Eq, PartialEq, Structural)]
pub enum ProposalKind {
    /// A signaling proposal.
    Signaling,
    /// An emergency proposal.
    Emergency,
    /// A parameter change proposal.
    ParameterChange,
    /// A Community Pool spend proposal.
    CommunityPoolSpend,
    /// An upgrade proposal.
    UpgradePlan,
    /// A proposal to freeze an IBC client.
    FreezeIbcClient,
    /// A proposal to unfreeze an IBC client.
    UnfreezeIbcClient,
}

/// A string that names no proposal kind.
#[derive(Debug, Clone, Eq, PartialEq)]
pub struct InvalidProposalKind {
    /// The string as it was given.
    pub kind: String,
}

impl InvalidProposalKind {
    /// The error as a sentence.
    pub fn message(&self) -> (r: String)
        ensures
            r@ == "invalid proposal kind: "@ + self.kind@,
    {
        let mut sentence = "invalid proposal kind: ".to_owned();
        sentence.append(self.kind.as_str());
        sentence
    }
}

impl ProposalKind {
    /// The kind that a string names, where it names one. Only the five
    /// kinds that can be proposed by name have one.
    pub open spec fn spec_from_str(s: Seq<char>) -> Option<ProposalKind> {
        if s == "signaling"@ {
            Some(ProposalKind::Signaling)
        } else if s == "emergency"@ {
            Some(ProposalKind::Emergency)
        } else if s == "parameter_change"@ {
            Some(ProposalKind::ParameterChange)
        } else if s == "community_pool_spend"@ {
            Some(ProposalKind::CommunityPoolSpend)
        } else if s == "upgrade_plan"@ {
            Some(ProposalKind::UpgradePlan)
        } else {
            None
        }
    }

    /// Reads a proposal kind from its name.
    pub fn from_str(s: &str) -> (r: Result<ProposalKind, InvalidProposalKind>)
        ensures
            match r {
                Ok(kind) => Self::spec_from_str(s@) == Some(kind),
                Err(e) => Self::spec_from_str(s@) is None && e.kind@ == s@,
            },
    {
        if str_equals(s, "signaling") {
            Ok(ProposalKind::Signaling)
        } else if str_equals(s, "emergency") {
            Ok(ProposalKind::Emergency)
        } else if str_equals(s, "parameter_change") {
            Ok(ProposalKind::ParameterChange)
        } else if str_equals(s, "community_pool_spend") {
            Ok(ProposalKind::CommunityPoolSpend)
        } else if str_equals(s, "upgrade_plan") {
            Ok(ProposalKind::UpgradePlan)
        } else {
            Err(InvalidProposalKind { kind: s.to_owned() })
        }
    }
}

impl FromStr for ProposalKind {
    type Err = InvalidProposalKind;

    /// Reads a proposal kind from its name, as the function of the same
    /// name on `ProposalKind` does: the five kinds that can be proposed by
    /// name are read, and any other string comes back in the error.
    fn from_str(s: &str) -> (r: Result<Self, Self::Err>)
        ensures
            match r {
                Ok(kind) => ProposalKind::spec_from_str(s@) == Some(kind),
                Err(e) => ProposalKind::spec_from_str(s@) is None && e.kind@ == s@,
            },
    {
        ProposalKind::from_str(s)
    }
}

/// The machine-interpretable body of a proposal.
#[derive(Debug, Clone, Eq, PartialEq)]
pub enum ProposalPayload {
    /// A signaling proposal is merely for coordination; it does not enact
    /// anything automatically by itself.
    Signaling {
        /// An optional commit hash for code that this proposal refers to.
        commit: Option<String>,
    },
    /// An emergency proposal is immediately passed when 2/3 of all
    /// validators approve it, without waiting for the voting period to
    /// conclude.
    Emergency {
        /// If `halt_chain == true`, then the chain will immediately halt
        /// when the proposal is passed.
        halt_chain: bool,
    },
    /// A parameter change proposal describes a replacement of the app
    /// parameters, which should take effect when the proposal is passed.
    ParameterChange {
        /// The old app parameters to be replaced.
        old: Box<ChangedAppParameters>,
        /// The new app parameters to be set.
        new: Box<ChangedAppParameters>,
    },
    /// A Community Pool spend proposal describes proposed transaction(s) to
    /// be executed or cancelled at specific heights, with the spend
    /// authority of the Community Pool.
    CommunityPoolSpend {
        /// The transaction plan to be executed at the time the proposal is
        /// passed.
        transaction_plan: Vec<u8>,
    },
    /// An upgrade plan proposal describes a planned upgrade to the chain.
    UpgradePlan { height: u64 },
    /// A proposal to freeze a specific IBC client.
    FreezeIbcClient {
        /// The identifier of the client to freeze.
        client_id: String,
    },
    /// A proposal to unfreeze a specific IBC client.
    UnfreezeIbcClient {
        /// The identifier of the client to unfreeze.
        client_id: String,
    },
}

/// `ProposalPayload` in the form in which people write it: the transaction
/// plan is base64 text.
#[derive(Debug, Clone)]
pub enum ProposalPayloadToml {
    Signaling { commit: Option<String> },
    Emergency { halt_chain: bool },
    ParameterChange { old: Box<ChangedAppParameters>, new: Box<ChangedAppParameters> },
    CommunityPoolSpend { transaction: String },
    UpgradePlan { height: u64 },
    FreezeIbcClient { client_id: String },
    UnfreezeIbcClient { client_id: String },
}

/// Why a proposal cannot be read.
#[derive(Debug, Clone, Eq, PartialEq)]
pub enum ProposalError {
    /// The proposal has no payload.
    MissingPayload,
    /// A parameter change names no old parameters.
    MissingOldParameters,
    /// A parameter change names no new parameters.
    MissingNewParameters,
    /// A Community Pool spend carries no transaction plan.
    MissingTransactionPlan,
    /// What a Community Pool spend carries is not a transaction plan.
    UnknownTransactionPlanTypeUrl { type_url: String },
    /// The transaction plan is not base64 text.
    TransactionPlanNotBase64,
}

impl ProposalError {
    /// The error as a sentence.
    pub fn message(&self) -> (r: String)
        ensures
            r@ == (match *self {
                ProposalError::MissingPayload => "missing proposal payload"@,
                ProposalError::MissingOldParameters => "missing old parameters"@,
                ProposalError::MissingNewParameters => "missing new parameters"@,
                ProposalError::MissingTransactionPlan => "missing transaction plan"@,
                ProposalError::UnknownTransactionPlanTypeUrl { type_url } =>
                    "unknown transaction plan type url: "@ + type_url@,
                ProposalError::TransactionPlanNotBase64 =>
                    "couldn't decode transaction plan from base64"@,
            }),
    {
        match self {
            ProposalError::MissingPayload => "missing proposal payload".to_owned(),
            ProposalError::MissingOldParameters => "missing old parameters".to_owned(),
            ProposalError::MissingNewParameters => "missing new parameters".to_owned(),
            ProposalError::MissingTransactionPlan => "missing transaction plan".to_owned(),
            ProposalError::UnknownTransactionPlanTypeUrl { type_url } => {
                let mut sentence = "unknown transaction plan type url: ".to_owned();
                sentence.append(type_url.as_str());
                sentence
            },
            ProposalError::TransactionPlanNotBase64 =>
                "couldn't decode transaction plan from base64".to_owned(),
        }
    }
}

impl ProposalPayload {
    /// The kind of this payload.
    pub open spec fn spec_kind(self) -> ProposalKind {
        match self {
            ProposalPayload::Signaling { .. } => ProposalKind::Signaling,
            ProposalPayload::Emergency { .. } => ProposalKind::Emergency,
            ProposalPayload::ParameterChange { .. } => ProposalKind::ParameterChange,
            ProposalPayload::CommunityPoolSpend { .. } => ProposalKind::CommunityPoolSpend,
            ProposalPayload::UpgradePlan { .. } => ProposalKind::UpgradePlan,
            ProposalPayload::FreezeIbcClient { .. } => ProposalKind::FreezeIbcClient,
            ProposalPayload::UnfreezeIbcClient { .. } => ProposalKind::UnfreezeIbcClient,
        }
    }

    pub fn is_signaling(&self) -> (r: bool)
        ensures
            r == (self.spec_kind() == ProposalKind::Signaling),
    {
        matches!(self, ProposalPayload::Signaling { .. })
    }

    pub fn is_emergency(&self) -> (r: bool)
        ensures
            r == (self.spec_kind() == ProposalKind::Emergency),
    {
        matches!(self, ProposalPayload::Emergency { .. })
    }

    pub fn is_ibc_freeze(&self) -> (r: bool)
        ensures
            r == (self.spec_kind() == ProposalKind::FreezeIbcClient || self.spec_kind()
                == ProposalKind::UnfreezeIbcClient),
    {
        matches!(self, ProposalPayload::FreezeIbcClient { .. }) || matches!(
            self,
            ProposalPayload::UnfreezeIbcClient { .. }
        )
    }

    pub fn is_parameter_change(&self) -> (r: bool)
        ensures
            r == (self.spec_kind() == ProposalKind::ParameterChange),
    {
        matches!(self, ProposalPayload::ParameterChange { .. })
    }

    pub fn is_community_pool_spend(&self) -> (r: bool)
        ensures
            r == (self.spec_kind() == ProposalKind::CommunityPoolSpend),
    {
        matches!(self, ProposalPayload::CommunityPoolSpend { .. })
    }

    /// Whether `payload` is what the written form `toml` reads as: the same
    /// payload, with the transaction plan decoded from its base64 text.
    pub open spec fn reads_from_toml(toml: ProposalPayloadToml, payload: ProposalPayload) -> bool {
        match toml {
            ProposalPayloadToml::Signaling { commit } => payload == (ProposalPayload::Signaling {
                commit,
            }),
            ProposalPayloadToml::Emergency { halt_chain } => payload == (
            ProposalPayload::Emergency { halt_chain }),
            ProposalPayloadToml::ParameterChange { old, new } => payload == (
            ProposalPayload::ParameterChange { old, new }),
            ProposalPayloadToml::CommunityPoolSpend { transaction } => {
                &&& payload matches ProposalPayload::CommunityPoolSpend { transaction_plan }
                &&& base64_standard_decode(transaction@) == Some(transaction_plan@)
            },
            ProposalPayloadToml::UpgradePlan { height } => payload == (
            ProposalPayload::UpgradePlan { height }),
            ProposalPayloadToml::FreezeIbcClient { client_id } => payload == (
            ProposalPayload::FreezeIbcClient { client_id }),
            ProposalPayloadToml::UnfreezeIbcClient { client_id } => payload == (
            ProposalPayload::UnfreezeIbcClient { client_id }),
        }
    }

    /// Whether the written form `toml` can be read: all can, but a
    /// Community Pool spend whose transaction is not base64 text.
    pub open spec fn toml_is_readable(toml: ProposalPayloadToml) -> bool {
        toml matches ProposalPayloadToml::CommunityPoolSpend { transaction }
            ==> base64_standard_decode(transaction@) is Some
    }

    /// Reads a payload from its written form.
    pub fn try_from_toml(toml: ProposalPayloadToml) -> (r: Result<ProposalPayload, ProposalError>)
        ensures
            r is Ok <==> Self::toml_is_readable(toml),
            r matches Ok(payload) ==> Self::reads_from_toml(toml, payload),
            r matches Err(e) ==> e == ProposalError::TransactionPlanNotBase64,
    {
        Ok(
            match toml {
                ProposalPayloadToml::Signaling { commit } => ProposalPayload::Signaling { commit },
                ProposalPayloadToml::Emergency { halt_chain } => ProposalPayload::Emergency {
                    halt_chain,
                },
                ProposalPayloadToml::ParameterChange { old, new } => {
                    ProposalPayload::ParameterChange { old, new }
                },
                ProposalPayloadToml::CommunityPoolSpend { transaction } => {
                    match decode_standard(transaction.as_str()) {
                        Ok(transaction_plan) => ProposalPayload::CommunityPoolSpend {
                            transaction_plan,
                        },
                        Err(_) => {
                            return Err(ProposalError::TransactionPlanNotBase64);
                        },
                    }
                },
                ProposalPayloadToml::UpgradePlan { height } => ProposalPayload::UpgradePlan {
                    height,
                },
                ProposalPayloadToml::FreezeIbcClient { client_id } => {
                    ProposalPayload::FreezeIbcClient { client_id }
                },
                ProposalPayloadToml::UnfreezeIbcClient { client_id } => {
                    ProposalPayload::UnfreezeIbcClient { client_id }
                },
            },
        )
    }

    /// Whether the payload can be put in writing: its transaction plan, if
    /// it has one, is short enough for its base64 text to have a length.
    pub open spec fn writable(self) -> bool {
        self matches ProposalPayload::CommunityPoolSpend { transaction_plan } ==> encodable_len(
            transaction_plan@.len(),
        )
    }

    /// Whether the payload can be put in writing.
    pub fn is_writable(&self) -> (r: bool)
        ensures
            r == self.writable(),
    {
        match self {
            ProposalPayload::CommunityPoolSpend { transaction_plan } => {
                transaction_plan.len() / 3 <= (usize::MAX - 4) / 4
            },
            _ => true,
        }
    }
}

impl ProposalPayloadToml {
    /// Whether `toml` is the written form of `payload`: the same payload,
    /// with the transaction plan as base64 text.
    pub open spec fn writes(payload: ProposalPayload, toml: ProposalPayloadToml) -> bool {
        match payload {
            ProposalPayload::Signaling { commit } => toml == (ProposalPayloadToml::Signaling {
                commit,
            }),
            ProposalPayload::Emergency { halt_chain } => toml == (ProposalPayloadToml::Emergency {
                halt_chain,
            }),
            ProposalPayload::ParameterChange { old, new } => toml == (
            ProposalPayloadToml::ParameterChange { old, new }),
            ProposalPayload::CommunityPoolSpend { transaction_plan } => {
                &&& toml matches ProposalPayloadToml::CommunityPoolSpend { transaction }
                &&& transaction@ == base64_standard_encode(transaction_plan@)
            },
            ProposalPayload::UpgradePlan { height } => toml == (ProposalPayloadToml::UpgradePlan {
                height,
            }),
            ProposalPayload::FreezeIbcClient { client_id } => toml == (
            ProposalPayloadToml::FreezeIbcClient { client_id }),
            ProposalPayload::UnfreezeIbcClient { client_id } => toml == (
            ProposalPayloadToml::UnfreezeIbcClient { client_id }),
        }
    }

    /// Puts a payload in writing.
    pub fn from_payload(payload: ProposalPayload) -> (toml: ProposalPayloadToml)
        requires
            payload.writable(),
        ensures
            Self::writes(payload, toml),
    {
        match payload {
            ProposalPayload::Signaling { commit } => ProposalPayloadToml::Signaling { commit },
            ProposalPayload::Emergency { halt_chain } => ProposalPayloadToml::Emergency {
                halt_chain,
            },
            ProposalPayload::ParameterChange { old, new } => {
                ProposalPayloadToml::ParameterChange { old, new }
            },
            ProposalPayload::CommunityPoolSpend { transaction_plan } => {
                ProposalPayloadToml::CommunityPoolSpend {
                    transaction: encode_standard(transaction_plan.as_slice()),
                }
            },
            ProposalPayload::UpgradePlan { height } => ProposalPayloadToml::UpgradePlan { height },
            ProposalPayload::FreezeIbcClient { client_id } => {
                ProposalPayloadToml::FreezeIbcClient { client_id }
            },
            ProposalPayload::UnfreezeIbcClient { client_id } => {
                ProposalPayloadToml::UnfreezeIbcClient { client_id }
            },
        }
    }
}

impl ProposalToml {
    /// Puts a proposal in writing.
    pub fn from_proposal(proposal: Proposal) -> (toml: ProposalToml)
        requires
            proposal.payload.writable(),
        ensures
            toml.id == proposal.id,
            toml.title == proposal.title,
            toml.description == proposal.description,
            ProposalPayloadToml::writes(proposal.payload, toml.payload),
    {
        ProposalToml {
            id: proposal.id,
            title: proposal.title,
            description: proposal.description,
            payload: ProposalPayloadToml::from_payload(proposal.payload),
        }
    }
}

impl Proposal {
    /// Get the kind of a proposal.
    pub fn kind(&self) -> (r: ProposalKind)
        ensures
            r == self.payload.spec_kind(),
    {
        match self.payload {
            ProposalPayload::Signaling { .. } => ProposalKind::Signaling,
            ProposalPayload::Emergency { .. } => ProposalKind::Emergency,
            ProposalPayload::ParameterChange { .. } => ProposalKind::ParameterChange,
            ProposalPayload::CommunityPoolSpend { .. } => ProposalKind::CommunityPoolSpend,
            ProposalPayload::UpgradePlan { .. } => ProposalKind::UpgradePlan,
            ProposalPayload::FreezeIbcClient { .. } => ProposalKind::FreezeIbcClient,
            ProposalPayload::UnfreezeIbcClient { .. } => ProposalKind::UnfreezeIbcClient,
        }
    }

    /// Reads a proposal from its written form.
    pub fn try_from_toml(proposal: ProposalToml) -> (r: Result<Proposal, ProposalError>)
        ensures
            r is Ok <==> ProposalPayload::toml_is_readable(proposal.payload),
            r matches Ok(read) ==> {
                &&& read.id == proposal.id
                &&& read.title == proposal.title
                &&& read.description == proposal.description
                &&& ProposalPayload::reads_from_toml(proposal.payload, read.payload)
            },
            r matches Err(e) ==> e == ProposalError::TransactionPlanNotBase64,
    {
        match ProposalPayload::try_from_toml(proposal.payload) {
            Ok(payload) => Ok(
                Proposal {
                    id: proposal.id,
                    title: proposal.title,
                    description: proposal.description,
                    payload,
                },
            ),
            Err(e) => Err(e),
        }
    }

    /// Whether the travelling payload `sent` carries `payload`: a missing
    /// commit travels as the empty string, parameters and transaction plan
    /// travel as present, and the plan is labelled with its type URL.
    pub open spec fn payload_travels_as(payload: ProposalPayload, sent: proto::Payload) -> bool {
        match payload {
            ProposalPayload::Signaling { commit } => {
                &&& sent matches proto::Payload::Signaling { commit: sent_commit }
                &&& match commit {
                    Some(c) => sent_commit == c,
                    None => sent_commit@ == Seq::<char>::empty(),
                }
            },
            ProposalPayload::Emergency { halt_chain } => sent == (proto::Payload::Emergency {
                halt_chain,
            }),
            ProposalPayload::ParameterChange { old, new } => sent == (
            proto::Payload::ParameterChange {
                old_parameters: Some(*old),
                new_parameters: Some(*new),
            }),
            ProposalPayload::CommunityPoolSpend { transaction_plan } => {
                &&& sent matches proto::Payload::CommunityPoolSpend { transaction_plan: Some(any) }
                &&& any.type_url@ == TRANSACTION_PLAN_TYPE_URL@
                &&& any.value == transaction_plan
            },
            ProposalPayload::UpgradePlan { height } => sent == (proto::Payload::UpgradePlan {
                height,
            }),
            ProposalPayload::FreezeIbcClient { client_id } => sent == (
            proto::Payload::FreezeIbcClient { client_id }),
            ProposalPayload::UnfreezeIbcClient { client_id } => sent == (
            proto::Payload::UnfreezeIbcClient { client_id }),
        }
    }

    /// The proposal in the form in which it travels.
    pub fn to_proto(self) -> (sent: proto::Proposal)
        ensures
            sent.id == self.id,
            sent.title == self.title,
            sent.description == self.description,
            sent.payload matches Some(payload) && Self::payload_travels_as(self.payload, payload),
    {
        let payload = match self.payload {
            ProposalPayload::Signaling { commit } => proto::Payload::Signaling {
                commit: match commit {
                    Some(c) => c,
                    None => String::new(),
                },
            },
            ProposalPayload::Emergency { halt_chain } => proto::Payload::Emergency { halt_chain },
            ProposalPayload::ParameterChange { old, new } => proto::Payload::ParameterChange {
                old_parameters: Some(*old),
                new_parameters: Some(*new),
            },
            ProposalPayload::CommunityPoolSpend { transaction_plan } => {
                proto::Payload::CommunityPoolSpend {
                    transaction_plan: Some(
                        proto::Any {
                            type_url: TRANSACTION_PLAN_TYPE_URL.to_owned(),
                            value: transaction_plan,
                        },
                    ),
                }
            },
            ProposalPayload::UpgradePlan { height } => proto::Payload::UpgradePlan { height },
            ProposalPayload::FreezeIbcClient { client_id } => proto::Payload::FreezeIbcClient {
                client_id,
            },
            ProposalPayload::UnfreezeIbcClient { client_id } => proto::Payload::UnfreezeIbcClient {
                client_id,
            },
        };
        proto::Proposal {
            id: self.id,
            title: self.title,
            description: self.description,
            payload: Some(payload),
        }
    }

    /// What is wrong with a travelling proposal, if anything: the first of
    /// a missing payload, missing old parameters, missing new parameters, a
    /// missing transaction plan, and a plan under another type URL.
    pub open spec fn proto_defect(sent: proto::Proposal) -> Option<ProposalError> {
        match sent.payload {
            None => Some(ProposalError::MissingPayload),
            Some(proto::Payload::ParameterChange { old_parameters: None, new_parameters: _ }) => Some(
                ProposalError::MissingOldParameters,
            ),
            Some(proto::Payload::ParameterChange { old_parameters: Some(_), new_parameters: None }) => Some(
                ProposalError::MissingNewParameters,
            ),
            Some(proto::Payload::CommunityPoolSpend { transaction_plan: None }) => Some(
                ProposalError::MissingTransactionPlan,
            ),
            Some(proto::Payload::CommunityPoolSpend { transaction_plan: Some(any) }) => if any.type_url@
                != TRANSACTION_PLAN_TYPE_URL@ {
                Some(ProposalError::UnknownTransactionPlanTypeUrl { type_url: any.type_url })
            } else {
                None
            },
            _ => None,
        }
    }

    /// Whether `payload` is what the travelling payload `sent` reads as: an
    /// empty commit reads as none, and parameters and plan are unwrapped.
    pub open spec fn payload_reads_from(sent: proto::Payload, payload: ProposalPayload) -> bool {
        match sent {
            proto::Payload::Signaling { commit } => {
                &&& payload matches ProposalPayload::Signaling { commit: read }
                &&& if commit@.len() == 0 {
                    read is None
                } else {
                    read == Some(commit)
                }
            },
            proto::Payload::Emergency { halt_chain } => payload == (ProposalPayload::Emergency {
                halt_chain,
            }),
            proto::Payload::ParameterChange { old_parameters, new_parameters } => {
                &&& old_parameters is Some
                &&& new_parameters is Some
                &&& payload matches ProposalPayload::ParameterChange { old, new }
                &&& *old == old_parameters->Some_0
                &&& *new == new_parameters->Some_0
            },
            proto::Payload::CommunityPoolSpend { transaction_plan } => {
                &&& transaction_plan is Some
                &&& payload == (ProposalPayload::CommunityPoolSpend {
                    transaction_plan: transaction_plan->Some_0.value,
                })
            },
            proto::Payload::UpgradePlan { height } => payload == (ProposalPayload::UpgradePlan {
                height,
            }),
            proto::Payload::FreezeIbcClient { client_id } => payload == (
            ProposalPayload::FreezeIbcClient { client_id }),
            proto::Payload::UnfreezeIbcClient { client_id } => payload == (
            ProposalPayload::UnfreezeIbcClient { client_id }),
        }
    }

    /// Reads a proposal from the form in which it travels.
    pub fn try_from_proto(sent: proto::Proposal) -> (r: Result<Proposal, ProposalError>)
        ensures
            r is Ok <==> Self::proto_defect(sent) is None,
            r matches Ok(read) ==> {
                &&& read.id == sent.id
                &&& read.title == sent.title
                &&& read.description == sent.description
                &&& sent.payload is Some
                &&& Self::payload_reads_from(sent.payload->Some_0, read.payload)
            },
            r matches Err(e) ==> Self::proto_defect(sent) == Some(e),
    {
        let payload = match sent.payload {
            None => {
                return Err(ProposalError::MissingPayload);
            },
            Some(proto::Payload::Signaling { commit }) => ProposalPayload::Signaling {
                commit: if commit.as_str().unicode_len() == 0 {
                    None
                } else {
                    Some(commit)
                },
            },
            Some(proto::Payload::Emergency { halt_chain }) => ProposalPayload::Emergency {
                halt_chain,
            },
            Some(proto::Payload::ParameterChange { old_parameters, new_parameters }) => {
                let old = match old_parameters {
                    Some(old) => old,
                    None => {
                        return Err(ProposalError::MissingOldParameters);
                    },
                };
                let new = match new_parameters {
                    Some(new) => new,
                    None => {
                        return Err(ProposalError::MissingNewParameters);
                    },
                };
                ProposalPayload::ParameterChange { old: Box::new(old), new: Box::new(new) }
            },
            Some(proto::Payload::CommunityPoolSpend { transaction_plan }) => {
                let any = match transaction_plan {
                    Some(any) => any,
                    None => {
                        return Err(ProposalError::MissingTransactionPlan);
                    },
                };
                if !str_equals(any.type_url.as_str(), TRANSACTION_PLAN_TYPE_URL) {
                    return Err(
                        ProposalError::UnknownTransactionPlanTypeUrl { type_url: any.type_url },
                    );
                }
                ProposalPayload::CommunityPoolSpend { transaction_plan: any.value }
            },
            Some(proto::Payload::UpgradePlan { height }) => ProposalPayload::UpgradePlan { height },
            Some(proto::Payload::FreezeIbcClient { client_id }) => {
                ProposalPayload::FreezeIbcClient { client_id }
            },
            Some(proto::Payload::UnfreezeIbcClient { client_id }) => {
                ProposalPayload::UnfreezeIbcClient { client_id }
            },
        };
        Ok(Proposal { id: sent.id, title: sent.title, description: sent.description, payload })
    }
}

} // verus!
