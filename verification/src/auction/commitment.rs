//! Checking the commitment that a withdrawal presents.
//!
//! A withdrawal does not name amounts. It presents a transparent
//! commitment, one with a blinding factor of zero, to the reserves it
//! claims, and the engine holds it against the commitment to the reserves
//! that the auction really has. The commitment scheme is not part of this
//! library: whoever drives the engine computes the second commitment and
//! says which amounts it is a commitment to.

use vstd::prelude::*;
use crate::asset::BalanceCommitment;
use crate::auction::guard::Rejection;
use crate::auction::state::DutchAuction;
use crate::num::Amount;

verus! {

/// A transparent commitment together with the two amounts that it was
/// computed over.
#[derive(Clone, Copy, Debug, PartialEq, Eq)]
pub struct ReservesCommitment {
    /// The amount of the input asset committed to.
    pub input: Amount,
    /// The amount of the output asset committed to.
    pub output: Amount,
    /// The commitment to the two amounts.
    pub commitment: BalanceCommitment,
}

impl ReservesCommitment {
    /// Whether this commitment was computed over the reserves that
    /// `auction` holds.
    pub open spec fn is_over(self, auction: DutchAuction) -> bool {
        &&& self.input == auction.state.input_reserves
        &&& self.output == auction.state.output_reserves
    }

    /// Whether this commitment was computed over the reserves that
    /// `auction` holds.
    pub fn covers(&self, auction: &DutchAuction) -> (r: bool)
        ensures
            r == self.is_over(*auction),
    {
        self.input.inner == auction.state.input_reserves.inner && self.output.inner
            == auction.state.output_reserves.inner
    }
}

/// What the verifier answers.
pub open spec fn spec_verify_commitment(
    supplied: BalanceCommitment,
    recomputed: BalanceCommitment,
) -> Result<(), Rejection> {
    if supplied == recomputed {
        Ok(())
    } else {
        Err(Rejection::CommitmentMismatch)
    }
}

/// Accepts the commitment that a withdrawal presents exactly when it is,
/// byte for byte, the commitment recomputed over the auction's reserves.
pub fn verify_commitment(supplied: &BalanceCommitment, recomputed: &BalanceCommitment) -> (r:
    Result<(), Rejection>)
    ensures
        r == spec_verify_commitment(*supplied, *recomputed),
        r is Ok <==> supplied.inner@ == recomputed.inner@,
{
    if supplied.equals(recomputed) {
        Ok(())
    } else {
        proof {
            if supplied.inner@ == recomputed.inner@ {
                assert(supplied.inner =~= recomputed.inner);
            }
        }
        Err(Rejection::CommitmentMismatch)
    }
}

} // verus!
