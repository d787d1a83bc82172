//! The actions that a transaction can carry to act on an auction.

use vstd::prelude::*;
use crate::asset::{BalanceCommitment, Value};
use crate::auction::commitment::ReservesCommitment;
use crate::auction::description::DutchAuctionDescription;
use crate::auction::id::AuctionId;

verus! {

/// Initiates a Dutch auction using protocol-controlled liquidity.
#[derive(Clone, Copy, Debug, PartialEq, Eq)]
pub struct ActionDutchAuctionSchedule {
    pub description: DutchAuctionDescription,
}

/// Terminates the auction with the given id.
#[derive(Clone, Copy, Debug, PartialEq, Eq)]
pub struct ActionDutchAuctionEnd {
    /// The auction to end.
    pub auction_id: AuctionId,
}

/// Withdraws funds from the ended auction with the given id.
#[derive(Clone, Copy, Debug, PartialEq, Eq)]
pub struct ActionDutchAuctionWithdraw {
    /// The auction to withdraw funds from.
    pub auction_id: AuctionId,
    /// The sequence number that the withdrawal presents.
    pub seq: u64,
    /// A transparent (zero blinding factor) commitment to the auction's
    /// final reserves. The chain checks it by recomputing it from its own
    /// state.
    pub reserves_commitment: BalanceCommitment,
}

/// The plan of a withdrawal: what the action will commit to.
#[derive(Clone, Copy, Debug, PartialEq, Eq)]
pub struct ActionDutchAuctionWithdrawPlan {
    pub auction_id: AuctionId,
    pub seq: u64,
    pub reserves_input: Value,
    pub reserves_output: Value,
}

impl ActionDutchAuctionWithdrawPlan {
    /// The action that carries out this plan, once `reserves_commitment`
    /// has been computed over the two planned values.
    pub fn to_action(&self, reserves_commitment: BalanceCommitment) -> (action:
        ActionDutchAuctionWithdraw)
        ensures
            action.auction_id == self.auction_id,
            action.seq == self.seq,
            action.reserves_commitment == reserves_commitment,
    {
        ActionDutchAuctionWithdraw { auction_id: self.auction_id, seq: self.seq, reserves_commitment }
    }
}

/// An action on an auction, with what the engine needs from outside to
/// apply it.
#[derive(Clone, Copy, Debug, PartialEq, Eq)]
pub enum AuctionAction {
    /// Schedule an auction. `id` is the id derived from the description.
    Schedule { id: AuctionId, action: ActionDutchAuctionSchedule },
    /// End an auction, presenting the sequence number `auth_seq`.
    End { action: ActionDutchAuctionEnd, auth_seq: u64 },
    /// Withdraw from an auction. `recomputed` is the commitment to the
    /// reserves that the auction holds.
    Withdraw { action: ActionDutchAuctionWithdraw, recomputed: ReservesCommitment },
}

} // verus!
