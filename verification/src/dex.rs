//! What the auction engine knows of the exchange it quotes on.

use vstd::prelude::*;
use crate::bytes32::bytes32_eq;
use crate::num::Amount;

pub mod swap;

verus! {

/// Identifies a position held on the exchange.
#[derive(Clone, Copy, Debug, PartialEq, Eq)]
pub struct PositionId {
    pub inner: [u8; 32],
}

impl PositionId {
    /// Whether two ids name the same position.
    pub fn equals(&self, other: &PositionId) -> (r: bool)
        ensures
            r == (*self == *other),
    {
        bytes32_eq(&self.inner, &other.inner)
    }
}

/// The two reserves of a position or of an auction: what is still for sale
/// and what has been received for what was sold.
#[derive(Clone, Copy, Debug, PartialEq, Eq, Structural)]
pub struct Reserves {
    pub input: Amount,
    pub output: Amount,
}

} // verus!
