//! Histories of one auction: what holds after any sequence of events.
//!
//! The exchange is outside this library, so a history carries beside the
//! auction the one thing about the exchange that the engine relies on: how
//! much input the auction has placed in its current position. A position
//! hands back at most what was placed in it.

use vstd::prelude::*;
use crate::asset::BalanceCommitment;
use crate::auction::guard::Rejection;
use crate::auction::state::DutchAuction;
use crate::dex::{PositionId, Reserves};

verus! {

/// One event in the life of an auction.
pub enum Event {
    /// The auction is stepped at `height`.
    Step { height: u64 },
    /// The exchange has closed the auction's position and handed back
    /// `recovered`.
    PositionClosed { recovered: Reserves },
    /// The exchange has opened `position` for the auction at `height`.
    PositionOpened { position: PositionId, height: u64 },
    /// The owner ends the auction, presenting `claimed_seq`.
    End { claimed_seq: u64 },
    /// The owner withdraws, presenting `claimed_seq` and `supplied`, where
    /// the commitment to the auction's reserves is `recomputed`.
    Withdraw { claimed_seq: u64, supplied: BalanceCommitment, recomputed: BalanceCommitment },
}

/// An auction together with the input that it has placed in its current
/// position.
pub struct Holding {
    pub auction: DutchAuction,
    pub placed: nat,
}

impl Holding {
    /// Conservation of the input: what the auction holds directly and what
    /// it has placed in its position are together no more than what was
    /// deposited, and without a position nothing is placed.
    pub open spec fn conserved(self) -> bool {
        &&& self.auction.wf()
        &&& self.auction.state.input_reserves.inner + self.placed
            <= self.auction.description.input.amount.inner
        &&& self.auction.state.current_position is None ==> self.placed == 0
    }

    /// A holding as it stands when the auction has just been scheduled.
    pub open spec fn initial(auction: DutchAuction) -> Holding {
        Holding { auction, placed: 0 }
    }

    /// Whether `event` can happen to this holding. The exchange reports a
    /// closed position only for an auction that has one, and hands back no
    /// more input than was placed; it reports an opened position only for
    /// an auction that is due at that height and has none.
    pub open spec fn admits(self, event: Event) -> bool {
        match event {
            Event::PositionClosed { recovered } => {
                &&& self.auction.state.current_position is Some
                &&& recovered.input.inner <= self.placed
                &&& self.auction.state.output_reserves.inner + recovered.output.inner <= u128::MAX
            },
            Event::PositionOpened { position, height } => {
                &&& self.auction.due_at(height)
                &&& self.auction.state.current_position is None
            },
            _ => true,
        }
    }

    /// The holding after `event`.
    pub open spec fn after(self, event: Event) -> Holding {
        match event {
            Event::Step { height } => Holding {
                auction: self.auction.spec_step(height).0,
                placed: self.placed,
            },
            Event::PositionClosed { recovered } => Holding {
                auction: self.auction.spec_position_closed(recovered),
                placed: 0,
            },
            Event::PositionOpened { position, height } => Holding {
                auction: self.auction.spec_position_opened(position, height),
                placed: self.auction.state.input_reserves.inner as nat,
            },
            Event::End { claimed_seq } => Holding {
                auction: self.auction.spec_end(claimed_seq).0,
                placed: self.placed,
            },
            Event::Withdraw { claimed_seq, supplied, recomputed } => Holding {
                auction: self.auction.spec_withdraw(claimed_seq, supplied, recomputed).0,
                placed: self.placed,
            },
        }
    }

    /// Whether the events of `events` can happen one after the other,
    /// starting from this holding.
    pub open spec fn admits_all(self, events: Seq<Event>) -> bool
        decreases events.len(),
    {
        if events.len() == 0 {
            true
        } else {
            self.admits(events.first()) && self.after(events.first()).admits_all(
                events.drop_first(),
            )
        }
    }

    /// The holding after all of `events`, one after the other.
    pub open spec fn after_all(self, events: Seq<Event>) -> Holding
        decreases events.len(),
    {
        if events.len() == 0 {
            self
        } else {
            self.after(events.first()).after_all(events.drop_first())
        }
    }

    /// One event keeps the input conserved, never lowers the sequence
    /// number, and leaves the description alone. What a position hands back
    /// under conservation is always consistent with what the auction
    /// deposited.
    pub proof fn lemma_event(self, event: Event)
        requires
            self.conserved(),
            self.admits(event),
        ensures
            self.after(event).conserved(),
            self.after(event).auction.state.seq >= self.auction.state.seq,
            self.after(event).auction.description == self.auction.description,
            event matches Event::PositionClosed { recovered } ==> self.auction.can_recover(
                recovered,
            ),
    {
        match event {
            Event::PositionOpened { position, height } => {
                self.auction.description.lemma_trigger_after(height);
            },
            _ => {},
        }
    }

    /// Reserve conservation and sequence monotonicity: after any sequence
    /// of events the auction holds, directly and in its position, no more
    /// input than was deposited; its sequence number has not fallen; and
    /// its description is what it was.
    pub proof fn lemma_history(self, events: Seq<Event>)
        requires
            self.conserved(),
            self.admits_all(events),
        ensures
            self.after_all(events).conserved(),
            self.after_all(events).auction.state.input_reserves.inner + self.after_all(
                events,
            ).placed <= self.auction.description.input.amount.inner,
            self.after_all(events).auction.state.seq >= self.auction.state.seq,
            self.after_all(events).auction.description == self.auction.description,
        decreases events.len(),
    {
        if events.len() > 0 {
            self.lemma_event(events.first());
            self.after(events.first()).lemma_history(events.drop_first());
        }
    }
}

impl DutchAuction {
    /// A freshly scheduled auction conserves its input.
    pub proof fn lemma_initial_conserved(self)
        requires
            self.description.valid(),
            self == Self::spec_initial(self.description),
        ensures
            Holding::initial(self).conserved(),
    {
    }

    /// A stale sequence number is always rejected: an End or a Withdraw
    /// that presents anything but the auction's current sequence number is
    /// refused for that reason, and changes nothing.
    pub proof fn lemma_stale_seq_rejected(
        self,
        claimed_seq: u64,
        supplied: BalanceCommitment,
        recomputed: BalanceCommitment,
    )
        requires
            claimed_seq != self.state.seq,
        ensures
            self.spec_end(claimed_seq) == (
                self,
                Err::<crate::auction::lifecycle::Action, Rejection>(
                    Rejection::SeqMismatch { expected: self.state.seq, claimed: claimed_seq },
                ),
            ),
            self.spec_withdraw(claimed_seq, supplied, recomputed) == (
                self,
                Err::<crate::auction::lifecycle::Action, Rejection>(
                    Rejection::SeqMismatch { expected: self.state.seq, claimed: claimed_seq },
                ),
            ),
    {
    }

    /// The terminal state is final: once an auction is closed, with both
    /// reserves empty and no position, every further Withdraw is rejected
    /// and leaves the auction as it is. One that presents the current
    /// sequence number is told that there is nothing to withdraw; any other
    /// is stopped by the guard before that.
    pub proof fn lemma_terminal_withdraw(
        self,
        claimed_seq: u64,
        supplied: BalanceCommitment,
        recomputed: BalanceCommitment,
    )
        requires
            self.is_terminal(),
        ensures
            self.spec_withdraw(claimed_seq, supplied, recomputed).0 == self,
            self.spec_withdraw(claimed_seq, supplied, recomputed).1 is Err,
            claimed_seq == self.state.seq ==> self.spec_withdraw(
                claimed_seq,
                supplied,
                recomputed,
            ).1 == Err::<crate::auction::lifecycle::Action, Rejection>(
                Rejection::NothingToWithdraw,
            ),
    {
    }

    /// Nothing moves a terminal auction: every event that can still happen
    /// to it leaves it as it is.
    pub proof fn lemma_terminal_is_final(self, event: Event)
        requires
            self.wf(),
            self.is_terminal(),
            Holding::initial(self).admits(event),
        ensures
            Holding::initial(self).after(event).auction == self,
    {
    }
}

} // verus!
