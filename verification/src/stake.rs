//! Staking: delegations and the changes queued for the next epoch.

pub mod action;
pub mod changes;
pub mod proto;
