//! The mutable state of a Dutch auction, and the record that joins it to
//! the description.

use vstd::prelude::*;
use crate::asset::Value;
use crate::auction::description::DutchAuctionDescription;
use crate::dex::{PositionId, Reserves};
use crate::num::Amount;

verus! {

/// The state of a Dutch auction. Only the engine changes it.
#[derive(Clone, Copy, Debug, PartialEq, Eq)]
pub struct DutchAuctionState {
    /// The sequence number: 0 while the auction is open, 1 once it is
    /// closed, and one more for each withdrawal.
    pub seq: u64,
    /// The position on the exchange that the auction presently owns, if it
    /// is quoting.
    pub current_position: Option<PositionId>,
    /// The height of the auction's next scheduled work, if it has any left.
    pub next_trigger: Option<u64>,
    /// The amount of the input asset that the auction holds directly.
    pub input_reserves: Amount,
    /// The amount of the output asset that the auction holds directly.
    pub output_reserves: Amount,
}

/// A Dutch auction: its immutable description and its state.
#[derive(Clone, Copy, Debug, PartialEq, Eq)]
pub struct DutchAuction {
    pub description: DutchAuctionDescription,
    pub state: DutchAuctionState,
}

impl DutchAuctionState {
    /// Whether both reserves are empty.
    pub open spec fn drained(self) -> bool {
        self.input_reserves.inner == 0 && self.output_reserves.inner == 0
    }
}

impl DutchAuction {
    /// The invariant of an auction record.
    ///
    /// The auction never holds more input than was deposited; while it owns
    /// a position it is open and all its input is in that position; it has
    /// work scheduled exactly while it is open, at a height within its range;
    /// and once a withdrawal has been made nothing is left.
    pub open spec fn wf(self) -> bool {
        &&& self.description.valid()
        &&& self.state.input_reserves.inner <= self.description.input.amount.inner
        &&& self.state.current_position is Some ==> self.state.seq == 0
            && self.state.input_reserves.inner == 0
        &&& self.state.next_trigger is Some <==> self.state.seq == 0
        &&& self.state.next_trigger matches Some(height) ==> self.description.start_height
            <= height <= self.description.end_height
        &&& self.state.seq >= 2 ==> self.state.drained()
    }

    /// Checks the invariant of an auction record, as when records are read
    /// back from storage.
    pub fn check(&self) -> (r: bool)
        ensures
            r == self.wf(),
    {
        let position_ok: bool = match self.state.current_position {
            Some(_) => self.state.seq == 0 && self.state.input_reserves.inner == 0,
            None => true,
        };
        let trigger_ok: bool = match self.state.next_trigger {
            Some(height) => self.state.seq == 0 && self.description.start_height <= height
                && height <= self.description.end_height,
            None => self.state.seq != 0,
        };
        let drained_ok: bool = self.state.seq < 2 || (self.state.input_reserves.inner == 0
            && self.state.output_reserves.inner == 0);
        self.description.validate().is_ok() && self.state.input_reserves.inner
            <= self.description.input.amount.inner && position_ok && trigger_ok && drained_ok
    }

    /// Whether the auction is open: scheduled or quoting, not yet closed.
    pub open spec fn is_open(self) -> bool {
        self.state.seq == 0
    }

    /// Whether the auction has reached the end of its life: closed, with
    /// nothing left to withdraw and no position.
    pub open spec fn is_terminal(self) -> bool {
        &&& self.state.seq >= 1
        &&& self.state.drained()
        &&& self.state.current_position is None
    }

    /// Whether the auction has work to do at `height`: it is open and its
    /// trigger height has been reached.
    pub open spec fn due_at(self, height: u64) -> bool {
        &&& self.state.seq == 0
        &&& self.state.next_trigger matches Some(trigger) && trigger <= height
    }

    /// Whether the auction has work to do at `height`.
    pub fn is_due(&self, height: u64) -> (r: bool)
        ensures
            r == self.due_at(height),
    {
        self.state.seq == 0 && match self.state.next_trigger {
            Some(trigger) => trigger <= height,
            None => false,
        }
    }

    /// The two values that the auction holds directly: what is left of the
    /// input, and what it has received of the output.
    pub open spec fn spec_holdings(self) -> (Value, Value) {
        (
            Value { amount: self.state.input_reserves, asset_id: self.description.input.asset_id },
            Value { amount: self.state.output_reserves, asset_id: self.description.output_id },
        )
    }

    /// The two values that the auction holds directly. A withdrawal commits
    /// to them and releases them.
    pub fn holdings(&self) -> (r: (Value, Value))
        ensures
            r == self.spec_holdings(),
    {
        (
            Value { amount: self.state.input_reserves, asset_id: self.description.input.asset_id },
            Value { amount: self.state.output_reserves, asset_id: self.description.output_id },
        )
    }

    /// The reserves that the auction holds directly.
    pub fn reserves(&self) -> (r: Reserves)
        ensures
            r.input == self.state.input_reserves,
            r.output == self.state.output_reserves,
    {
        Reserves { input: self.state.input_reserves, output: self.state.output_reserves }
    }
}

} // verus!
