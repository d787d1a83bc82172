//! Governance proposals.

pub mod params;
pub mod proposal;
pub mod proto;
