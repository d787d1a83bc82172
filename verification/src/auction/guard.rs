//! The bearer-token guard: an action on an auction must present the
//! auction's current sequence number.

use vstd::prelude::*;
use crate::auction::description::DescriptionError;
use crate::auction::state::DutchAuction;

verus! {

/// Why an action was rejected. A rejection changes nothing, and the block
/// goes on with its other actions.
#[derive(Clone, Copy, Debug, PartialEq, Eq, Structural)]
pub enum Rejection {
    /// The description of the auction to be scheduled is malformed.
    InvalidDescription(DescriptionError),
    /// An auction with this id has been scheduled before.
    AuctionExists,
    /// No auction has this id.
    UnknownAuction,
    /// The sequence number presented is not the auction's current one.
    SeqMismatch { expected: u64, claimed: u64 },
    /// The auction is closed and cannot be ended again.
    AlreadyClosed,
    /// The auction is still open and nothing can be withdrawn from it.
    NotClosed,
    /// Both reserves of the auction are empty.
    NothingToWithdraw,
    /// The commitment presented is not the commitment to the auction's
    /// reserves.
    CommitmentMismatch,
}

impl Rejection {
    /// The reason of the rejection in words, for whoever submitted the
    /// action.
    pub fn message(&self) -> (r: &'static str)
        ensures
            r@ == (match *self {
                Rejection::InvalidDescription(DescriptionError::InvertedPriceBounds) =>
                    "invalid description: max output is below min output"@,
                Rejection::InvalidDescription(DescriptionError::EmptyHeightRange) =>
                    "invalid description: end height is not above start height"@,
                Rejection::InvalidDescription(DescriptionError::ZeroStepCount) =>
                    "invalid description: step count is zero"@,
                Rejection::InvalidDescription(DescriptionError::IndivisibleStepCount) =>
                    "invalid description: the heights are not a multiple of the step count"@,
                Rejection::AuctionExists => "an auction with this id exists already"@,
                Rejection::UnknownAuction => "no auction has this id"@,
                Rejection::SeqMismatch { .. } => "sequence number mismatch"@,
                Rejection::AlreadyClosed => "the auction is already closed"@,
                Rejection::NotClosed => "the auction is not closed yet"@,
                Rejection::NothingToWithdraw => "nothing to withdraw"@,
                Rejection::CommitmentMismatch => "reserves commitment mismatch"@,
            }),
    {
        match self {
            Rejection::InvalidDescription(DescriptionError::InvertedPriceBounds) => {
                "invalid description: max output is below min output"
            },
            Rejection::InvalidDescription(DescriptionError::EmptyHeightRange) => {
                "invalid description: end height is not above start height"
            },
            Rejection::InvalidDescription(DescriptionError::ZeroStepCount) => {
                "invalid description: step count is zero"
            },
            Rejection::InvalidDescription(DescriptionError::IndivisibleStepCount) => {
                "invalid description: the heights are not a multiple of the step count"
            },
            Rejection::AuctionExists => "an auction with this id exists already",
            Rejection::UnknownAuction => "no auction has this id",
            Rejection::SeqMismatch { .. } => "sequence number mismatch",
            Rejection::AlreadyClosed => "the auction is already closed",
            Rejection::NotClosed => "the auction is not closed yet",
            Rejection::NothingToWithdraw => "nothing to withdraw",
            Rejection::CommitmentMismatch => "reserves commitment mismatch",
        }
    }
}

/// What the guard answers to a claimed sequence number.
pub open spec fn spec_authorize(record: DutchAuction, claimed_seq: u64) -> Result<(), Rejection> {
    if claimed_seq == record.state.seq {
        Ok(())
    } else {
        Err(Rejection::SeqMismatch { expected: record.state.seq, claimed: claimed_seq })
    }
}

/// Lets an action through exactly when it presents the auction's current
/// sequence number.
pub fn authorize(record: &DutchAuction, claimed_seq: u64) -> (r: Result<(), Rejection>)
    ensures
        r == spec_authorize(*record, claimed_seq),
        r is Ok <==> claimed_seq == record.state.seq,
{
    if claimed_seq == record.state.seq {
        Ok(())
    } else {
        Err(Rejection::SeqMismatch { expected: record.state.seq, claimed: claimed_seq })
    }
}

} // verus!
