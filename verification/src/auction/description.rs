//! The immutable description of a Dutch auction.

use vstd::prelude::*;
use crate::asset::{AssetId, Value};
use crate::num::Amount;

verus! {

/// Describes a Dutch auction: what is sold, for what, between which prices
/// and over which heights. It is fixed when the auction is scheduled.
#[derive(Clone, Copy, Debug, PartialEq, Eq)]
pub struct DutchAuctionDescription {
    /// The value the seller wishes to auction.
    pub input: Value,
    /// The asset the seller wishes to acquire.
    pub output_id: AssetId,
    /// The most output the seller can receive: the starting price.
    pub max_output: Amount,
    /// The least output the seller is willing to receive: the ending price.
    pub min_output: Amount,
    /// The height at which the auction begins.
    pub start_height: u64,
    /// The height at which the auction ends.
    pub end_height: u64,
    /// The number of discrete price steps.
    pub step_count: u64,
    /// Random bytes that let otherwise identical auctions have distinct ids.
    pub nonce: [u8; 32],
}

/// Why a description is malformed.
#[derive(Clone, Copy, Debug, PartialEq, Eq, Structural)]
pub enum DescriptionError {
    /// `max_output` is below `min_output`.
    InvertedPriceBounds,
    /// `end_height` is not above `start_height`.
    EmptyHeightRange,
    /// `step_count` is zero.
    ZeroStepCount,
    /// `end_height - start_height` is not a multiple of `step_count`.
    IndivisibleStepCount,
}

impl DutchAuctionDescription {
    /// The invariant of a description.
    pub open spec fn valid(self) -> bool {
        &&& self.min_output.inner <= self.max_output.inner
        &&& self.start_height < self.end_height
        &&& self.step_count >= 1
        &&& (self.end_height - self.start_height) % (self.step_count as int) == 0
    }

    /// The first defect of a description, in the order in which `validate`
    /// reports them; `None` for a valid one.
    pub open spec fn defect(self) -> Option<DescriptionError> {
        if self.max_output.inner < self.min_output.inner {
            Some(DescriptionError::InvertedPriceBounds)
        } else if self.end_height <= self.start_height {
            Some(DescriptionError::EmptyHeightRange)
        } else if self.step_count == 0 {
            Some(DescriptionError::ZeroStepCount)
        } else if (self.end_height - self.start_height) % (self.step_count as int) != 0 {
            Some(DescriptionError::IndivisibleStepCount)
        } else {
            None
        }
    }

    /// Checks the invariant of a description.
    pub fn validate(&self) -> (r: Result<(), DescriptionError>)
        ensures
            r is Ok <==> self.valid(),
            r is Err ==> self.defect() == Some(r->Err_0),
    {
        if self.max_output.inner < self.min_output.inner {
            Err(DescriptionError::InvertedPriceBounds)
        } else if self.end_height <= self.start_height {
            Err(DescriptionError::EmptyHeightRange)
        } else if self.step_count == 0 {
            Err(DescriptionError::ZeroStepCount)
        } else if (self.end_height - self.start_height) % self.step_count != 0 {
            Err(DescriptionError::IndivisibleStepCount)
        } else {
            Ok(())
        }
    }
}

} // verus!
