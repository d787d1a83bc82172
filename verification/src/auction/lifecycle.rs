//! The life of a Dutch auction.
//!
//! An auction is scheduled, quotes on the exchange through a succession of
//! positions at falling prices, is closed at its end height or by its
//! owner, and is then withdrawn from. The exchange and the shielded pool
//! are not part of this library. Each transition here either changes the
//! auction or says what has to be done outside, as an [`Action`]; whoever
//! drives the engine does it and reports back.

use vstd::prelude::*;
use vstd::arithmetic::div_mod::{lemma_fundamental_div_mod, lemma_mod_bound};
use vstd::arithmetic::mul::{lemma_mul_inequality, lemma_mul_is_commutative};
use crate::asset::{AssetId, BalanceCommitment, Value};
use crate::auction::commitment::{spec_verify_commitment, verify_commitment, ReservesCommitment};
use crate::auction::description::DutchAuctionDescription;
use crate::auction::guard::{authorize, spec_authorize, Rejection};
use crate::auction::price::{price_at, Price};
use crate::auction::state::{DutchAuction, DutchAuctionState};
use crate::dex::{PositionId, Reserves};
use crate::num::Amount;

verus! {

/// The terms of a position that the auction asks the exchange to open:
/// all of `input` is for sale, for the asset `output_id`, at `price`.
#[derive(Clone, Copy, Debug, PartialEq, Eq)]
pub struct Quote {
    pub input: Value,
    pub output_id: AssetId,
    pub price: Price,
}

/// What has to be done outside the engine after a transition.
#[derive(Clone, Copy, Debug, PartialEq, Eq)]
pub enum Action {
    /// Nothing.
    Nothing,
    /// Close this position on the exchange and report the reserves it held.
    ClosePosition { position: PositionId },
    /// Open a position on these terms and report its id.
    OpenPosition { quote: Quote },
    /// Release these two values to whoever made the withdrawal.
    Release { input: Value, output: Value },
}

impl DutchAuctionDescription {
    /// The first step boundary after `height`.
    pub open spec fn next_boundary(self, height: u64) -> int {
        self.start_height + (self.step_index(height) + 1) * self.step_length()
    }

    /// The height of the work that follows a position opened at `height`:
    /// the next step boundary, or the end height if that comes first.
    pub open spec fn trigger_after(self, height: u64) -> u64 {
        if self.next_boundary(height) < self.end_height {
            self.next_boundary(height) as u64
        } else {
            self.end_height
        }
    }

    /// The trigger that follows `height` lies within the auction's range,
    /// and after `height` as long as the auction has not ended.
    pub proof fn lemma_trigger_after(self, height: u64)
        requires
            self.valid(),
            self.start_height <= height,
        ensures
            self.start_height < self.trigger_after(height) <= self.end_height,
            height < self.end_height ==> height < self.trigger_after(height),
            height < self.end_height ==> self.trigger_after(height) == height - (height
                - self.start_height) % self.step_length() + self.step_length(),
            height >= self.end_height ==> self.trigger_after(height) == self.end_height,
    {
        self.lemma_step_length();
        self.lemma_step_index_bounds(height);
        let len = self.step_length();
        let n = self.step_count as int;
        let i = self.step_index(height);
        assert((i + 1) * len == i * len + len) by (nonlinear_arith);
        if height < self.end_height {
            let x = height - self.start_height;
            if height > self.start_height {
                lemma_fundamental_div_mod(x, len);
                lemma_mod_bound(x, len);
                lemma_mul_is_commutative(len, x / len);
            } else {
                assert(0int % len == 0) by (nonlinear_arith)
                    requires
                        len >= 1,
                ;
                assert(i * len == 0) by (nonlinear_arith)
                    requires
                        i == 0,
                ;
            }
            assert(self.next_boundary(height) == height - x % len + len);
            // the boundary is a multiple of the step length, and so at most the end
            assert(i < n) by (nonlinear_arith)
                requires
                    i * len <= x,
                    x < n * len,
                    len >= 1,
                    i >= 0,
            ;
            lemma_mul_inequality(i + 1, n, len);
        } else {
            assert(i == n);
        }
        assert(i * len >= 0) by (nonlinear_arith)
            requires
                i >= 0,
                len >= 1,
        ;
    }

    /// The height of the work that follows a position opened at `height`.
    pub fn next_trigger_after(&self, height: u64) -> (r: u64)
        requires
            self.valid(),
            self.start_height <= height,
        ensures
            r == self.trigger_after(height),
    {
        proof {
            self.lemma_step_length();
            self.lemma_trigger_after(height);
            let x = height - self.start_height;
            let len = self.step_length();
            lemma_fundamental_div_mod(x, len);
            lemma_mod_bound(x, len);
            assert(len * (x / len) >= 0) by (nonlinear_arith)
                requires
                    len >= 1,
                    x >= 0,
                    x == len * (x / len) + x % len,
                    0 <= x % len < len,
            ;
        }
        if height >= self.end_height {
            self.end_height
        } else {
            let length: u64 = (self.end_height - self.start_height) / self.step_count;
            height - (height - self.start_height) % length + length
        }
    }
}

impl DutchAuction {
    /// The auction as it stands when it has just been scheduled: open, all
    /// of the input in hand, nothing received, and its first work at the
    /// start height.
    pub open spec fn spec_initial(description: DutchAuctionDescription) -> DutchAuction {
        DutchAuction {
            description,
            state: DutchAuctionState {
                seq: 0,
                current_position: None,
                next_trigger: Some(description.start_height),
                input_reserves: description.input.amount,
                output_reserves: Amount { inner: 0 },
            },
        }
    }

    /// The terms on which the auction quotes at `height`: all the input it
    /// holds, at the price in force.
    pub open spec fn spec_quote(self, height: u64) -> Quote {
        Quote {
            input: Value {
                amount: self.state.input_reserves,
                asset_id: self.description.input.asset_id,
            },
            output_id: self.description.output_id,
            price: self.description.spec_price_at(height),
        }
    }

    /// The auction after the exchange has opened `position` for it at
    /// `height`: all its input is in the position, and its next work is at
    /// the next step boundary.
    pub open spec fn spec_position_opened(self, position: PositionId, height: u64) -> DutchAuction {
        DutchAuction {
            description: self.description,
            state: DutchAuctionState {
                seq: self.state.seq,
                current_position: Some(position),
                next_trigger: Some(self.description.trigger_after(height)),
                input_reserves: Amount { inner: 0 },
                output_reserves: self.state.output_reserves,
            },
        }
    }

    /// The auction after the exchange has closed its position and handed
    /// back `recovered`.
    pub open spec fn spec_position_closed(self, recovered: Reserves) -> DutchAuction {
        DutchAuction {
            description: self.description,
            state: DutchAuctionState {
                seq: self.state.seq,
                current_position: None,
                next_trigger: self.state.next_trigger,
                input_reserves: Amount {
                    inner: (self.state.input_reserves.inner + recovered.input.inner) as u128,
                },
                output_reserves: Amount {
                    inner: (self.state.output_reserves.inner + recovered.output.inner) as u128,
                },
            },
        }
    }

    /// The auction once closed: sequence number 1, no position, no work
    /// scheduled. The reserves stay for the withdrawal.
    pub open spec fn spec_closed(self) -> DutchAuction {
        DutchAuction {
            description: self.description,
            state: DutchAuctionState {
                seq: 1,
                current_position: None,
                next_trigger: None,
                input_reserves: self.state.input_reserves,
                output_reserves: self.state.output_reserves,
            },
        }
    }

    /// The auction after a withdrawal: the reserves are empty and the
    /// sequence number is one higher.
    pub open spec fn spec_withdrawn(self) -> DutchAuction {
        DutchAuction {
            description: self.description,
            state: DutchAuctionState {
                seq: (self.state.seq + 1) as u64,
                current_position: self.state.current_position,
                next_trigger: self.state.next_trigger,
                input_reserves: Amount { inner: 0 },
                output_reserves: Amount { inner: 0 },
            },
        }
    }

    /// Whether what the exchange hands back for a closed position is
    /// consistent with what the auction deposited: with it the auction
    /// holds no more input than it started with, and its output still fits
    /// the amount type.
    pub open spec fn can_recover(self, recovered: Reserves) -> bool {
        &&& self.state.current_position is Some
        &&& self.state.input_reserves.inner + recovered.input.inner
            <= self.description.input.amount.inner
        &&& self.state.output_reserves.inner + recovered.output.inner <= u128::MAX
    }

    /// Scheduling: what becomes of a description submitted at
    /// `current_height`.
    ///
    /// A malformed description is rejected. Otherwise the auction is
    /// created, and if its start height has been reached it quotes at once.
    pub open spec fn spec_schedule(description: DutchAuctionDescription, current_height: u64)
        -> Result<(DutchAuction, Action), Rejection> {
        match description.defect() {
            Some(defect) => Err(Rejection::InvalidDescription(defect)),
            None => {
                let auction = Self::spec_initial(description);
                if description.start_height <= current_height {
                    Ok((auction, Action::OpenPosition { quote: auction.spec_quote(current_height) }))
                } else {
                    Ok((auction, Action::Nothing))
                }
            },
        }
    }

    /// A step: what the auction does when its trigger height is reached.
    ///
    /// An auction that is not due does nothing. One that owns a position
    /// has it closed first. One without a position is closed if its end
    /// height has been reached, and otherwise quotes at the price now in
    /// force.
    pub open spec fn spec_step(self, height: u64) -> (DutchAuction, Action) {
        if !self.due_at(height) {
            (self, Action::Nothing)
        } else {
            match self.state.current_position {
                Some(position) => (self, Action::ClosePosition { position }),
                None => if height >= self.description.end_height {
                    (self.spec_closed(), Action::Nothing)
                } else {
                    (self, Action::OpenPosition { quote: self.spec_quote(height) })
                },
            }
        }
    }

    /// Ending: what the auction does when its owner ends it, presenting
    /// `claimed_seq`.
    ///
    /// The guard comes first. A closed auction cannot be ended again. An
    /// auction that owns a position has it closed first; one without is
    /// closed.
    pub open spec fn spec_end(self, claimed_seq: u64) -> (DutchAuction, Result<Action, Rejection>) {
        match spec_authorize(self, claimed_seq) {
            Err(rejection) => (self, Err(rejection)),
            Ok(_) => if self.state.seq != 0 {
                (self, Err(Rejection::AlreadyClosed))
            } else {
                match self.state.current_position {
                    Some(position) => (self, Ok(Action::ClosePosition { position })),
                    None => (self.spec_closed(), Ok(Action::Nothing)),
                }
            },
        }
    }

    /// Withdrawing: what the auction does with a withdrawal that presents
    /// `claimed_seq` and the commitment `supplied`, where `recomputed` is
    /// the commitment to the reserves the auction holds.
    ///
    /// The guard comes first. Nothing can be withdrawn from an open
    /// auction, nor from empty reserves, nor on a commitment that does not
    /// match. Otherwise both reserves are released.
    pub open spec fn spec_withdraw(
        self,
        claimed_seq: u64,
        supplied: BalanceCommitment,
        recomputed: BalanceCommitment,
    ) -> (DutchAuction, Result<Action, Rejection>) {
        match spec_authorize(self, claimed_seq) {
            Err(rejection) => (self, Err(rejection)),
            Ok(_) => if self.state.seq == 0 {
                (self, Err(Rejection::NotClosed))
            } else if self.state.drained() {
                (self, Err(Rejection::NothingToWithdraw))
            } else {
                match spec_verify_commitment(supplied, recomputed) {
                    Err(rejection) => (self, Err(rejection)),
                    Ok(_) => (
                        self.spec_withdrawn(),
                        Ok(
                            Action::Release {
                                input: self.spec_holdings().0,
                                output: self.spec_holdings().1,
                            },
                        ),
                    ),
                }
            },
        }
    }

    /// Schedules an auction at `current_height`.
    pub fn schedule(description: DutchAuctionDescription, current_height: u64) -> (r: Result<
        (DutchAuction, Action),
        Rejection,
    >)
        ensures
            r == Self::spec_schedule(description, current_height),
            r is Ok <==> description.valid(),
            r matches Ok(scheduled) ==> scheduled.0.wf(),
    {
        match description.validate() {
            Err(defect) => Err(Rejection::InvalidDescription(defect)),
            Ok(_) => {
                let auction = DutchAuction {
                    description,
                    state: DutchAuctionState {
                        seq: 0,
                        current_position: None,
                        next_trigger: Some(description.start_height),
                        input_reserves: description.input.amount,
                        output_reserves: Amount::zero(),
                    },
                };
                if description.start_height <= current_height {
                    let quote = auction.quote(current_height);
                    Ok((auction, Action::OpenPosition { quote }))
                } else {
                    Ok((auction, Action::Nothing))
                }
            },
        }
    }

    /// The terms on which the auction quotes at `height`.
    pub fn quote(&self, height: u64) -> (r: Quote)
        requires
            self.description.valid(),
        ensures
            r == self.spec_quote(height),
    {
        Quote {
            input: Value {
                amount: self.state.input_reserves,
                asset_id: self.description.input.asset_id,
            },
            output_id: self.description.output_id,
            price: price_at(&self.description, height),
        }
    }

    /// Records that the exchange has opened `position` for the auction at
    /// `height`, on the terms of `quote(height)`.
    pub fn position_opened(&mut self, position: PositionId, height: u64)
        requires
            old(self).wf(),
            old(self).due_at(height),
            old(self).state.current_position is None,
        ensures
            *final(self) == old(self).spec_position_opened(position, height),
            final(self).wf(),
    {
        proof {
            self.description.lemma_trigger_after(height);
        }
        let next: u64 = self.description.next_trigger_after(height);
        self.state.current_position = Some(position);
        self.state.next_trigger = Some(next);
        self.state.input_reserves = Amount::zero();
    }

    /// Whether `recovered` is consistent with what the auction deposited.
    pub fn accepts_recovered(&self, recovered: &Reserves) -> (r: bool)
        requires
            self.wf(),
        ensures
            r == self.can_recover(*recovered),
    {
        self.state.current_position.is_some() && recovered.input.inner
            <= self.description.input.amount.inner - self.state.input_reserves.inner
            && recovered.output.inner <= u128::MAX - self.state.output_reserves.inner
    }

    /// Records that the exchange has closed the auction's position and
    /// handed back `recovered`.
    pub fn position_closed(&mut self, recovered: Reserves)
        requires
            old(self).wf(),
            old(self).can_recover(recovered),
        ensures
            *final(self) == old(self).spec_position_closed(recovered),
            final(self).wf(),
    {
        self.state.current_position = None;
        self.state.input_reserves = Amount {
            inner: self.state.input_reserves.inner + recovered.input.inner,
        };
        self.state.output_reserves = Amount {
            inner: self.state.output_reserves.inner + recovered.output.inner,
        };
    }

    /// Takes one step at `height`.
    pub fn step(&mut self, height: u64) -> (action: Action)
        requires
            old(self).wf(),
        ensures
            (*final(self), action) == old(self).spec_step(height),
            final(self).wf(),
    {
        if !self.is_due(height) {
            return Action::Nothing;
        }
        match self.state.current_position {
            Some(position) => Action::ClosePosition { position },
            None => {
                if height >= self.description.end_height {
                    self.close();
                    Action::Nothing
                } else {
                    Action::OpenPosition { quote: self.quote(height) }
                }
            },
        }
    }

    /// Closes the auction.
    fn close(&mut self)
        requires
            old(self).wf(),
            old(self).state.seq == 0,
            old(self).state.current_position is None,
        ensures
            *final(self) == old(self).spec_closed(),
            final(self).wf(),
    {
        self.state.seq = 1;
        self.state.next_trigger = None;
    }

    /// Ends the auction for its owner.
    pub fn end(&mut self, claimed_seq: u64) -> (r: Result<Action, Rejection>)
        requires
            old(self).wf(),
        ensures
            (*final(self), r) == old(self).spec_end(claimed_seq),
            final(self).wf(),
    {
        match authorize(self, claimed_seq) {
            Err(rejection) => Err(rejection),
            Ok(_) => {
                if self.state.seq != 0 {
                    Err(Rejection::AlreadyClosed)
                } else {
                    match self.state.current_position {
                        Some(position) => Ok(Action::ClosePosition { position }),
                        None => {
                            self.close();
                            Ok(Action::Nothing)
                        },
                    }
                }
            },
        }
    }

    /// Withdraws the auction's reserves.
    ///
    /// `recomputed` is the transparent commitment to the reserves the
    /// auction holds, with the amounts it was computed over.
    pub fn withdraw(
        &mut self,
        claimed_seq: u64,
        supplied: &BalanceCommitment,
        recomputed: &ReservesCommitment,
    ) -> (r: Result<Action, Rejection>)
        requires
            old(self).wf(),
            recomputed.is_over(*old(self)),
        ensures
            (*final(self), r) == old(self).spec_withdraw(
                claimed_seq,
                *supplied,
                recomputed.commitment,
            ),
            final(self).wf(),
    {
        match authorize(self, claimed_seq) {
            Err(rejection) => Err(rejection),
            Ok(_) => {
                if self.state.seq == 0 {
                    Err(Rejection::NotClosed)
                } else if self.state.input_reserves.is_zero()
                    && self.state.output_reserves.is_zero() {
                    Err(Rejection::NothingToWithdraw)
                } else {
                    match verify_commitment(supplied, &recomputed.commitment) {
                        Err(rejection) => Err(rejection),
                        Ok(_) => {
                            let (input, output) = self.holdings();
                            self.state.seq = self.state.seq + 1;
                            self.state.input_reserves = Amount::zero();
                            self.state.output_reserves = Amount::zero();
                            Ok(Action::Release { input, output })
                        },
                    }
                }
            },
        }
    }
}

} // verus!
