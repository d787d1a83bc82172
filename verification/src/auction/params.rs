//! The parameters of the auction component.

use vstd::prelude::*;

verus! {

/// The configuration parameters for the auction component. There are none
/// so far.
#[derive(Clone, Copy, Debug, Default, PartialEq, Eq, Structural)]
pub struct AuctionParameters {}

/// Genesis data for the auction component.
#[derive(Clone, Copy, Debug, Default, PartialEq, Eq, Structural)]
pub struct GenesisContent {
    /// The configuration parameters for the auction component at genesis.
    pub params: AuctionParameters,
}

} // verus!
