//! The engine: the record store and the trigger scheduler, moved together.
//!
//! The chain calls [`Engine::on_block_enter`] at each block boundary and
//! steps every auction it is handed, in the order given; only then does it
//! call [`Engine::apply_action`] for the actions of the block's
//! transactions, in the order of the block. Whatever a transition leaves to
//! be done outside comes back as an [`Action`].
//!
//! The states of the auctions are the truth. The scheduler index is
//! derived from them: it holds the next trigger of every auction that has
//! one, but for the auctions that have been handed out and wait to be
//! stepped.

use vstd::prelude::*;
use crate::asset::BalanceCommitment;
use crate::auction::action::AuctionAction;
use crate::auction::commitment::ReservesCommitment;
use crate::auction::description::DutchAuctionDescription;
use crate::auction::guard::Rejection;
use crate::auction::id::AuctionId;
use crate::auction::lifecycle::Action;
use crate::auction::scheduler::{due, in_processing_order, TriggerScheduler};
use crate::auction::state::DutchAuction;
use crate::auction::store::{AuctionRecord, AuctionStore};
use crate::dex::{PositionId, Reserves};

verus! {

/// The index that the states of the auctions call for: each auction that
/// has a next trigger, at that height.
pub open spec fn index_of(auctions: Map<AuctionId, DutchAuction>) -> Map<AuctionId, u64> {
    Map::new(
        |id: AuctionId| auctions.contains_key(id) && auctions[id].state.next_trigger is Some,
        |id: AuctionId| auctions[id].state.next_trigger->Some_0,
    )
}

/// The auction engine.
pub struct Engine {
    store: AuctionStore,
    scheduler: TriggerScheduler,
    /// The auctions handed out by `on_block_enter` that have not been
    /// stepped to the end yet, next first.
    pending: Vec<AuctionId>,
    /// The height of the block entered last.
    height: u64,
}

impl Engine {
    /// Every auction that the engine knows, by id.
    pub closed spec fn auctions(&self) -> Map<AuctionId, DutchAuction> {
        self.store@
    }

    /// The scheduler index: the auctions that wait for a height, each with
    /// that height.
    pub closed spec fn triggers(&self) -> Map<AuctionId, u64> {
        self.scheduler@
    }

    /// The auctions that were due when the last block was entered and have
    /// not been stepped to the end yet, in processing order.
    pub closed spec fn pending(&self) -> Seq<AuctionId> {
        self.pending@
    }

    /// The height of the block entered last.
    pub closed spec fn block_height(&self) -> u64 {
        self.height
    }

    /// The parts of the engine are well formed.
    pub closed spec fn parts_wf(&self) -> bool {
        self.store.wf() && self.scheduler.wf()
    }

    /// The invariant of the engine: every auction is well formed; the
    /// pending auctions are known, due, and each listed once; and the index
    /// is what the states of the other auctions call for.
    pub open spec fn wf(&self) -> bool {
        &&& self.parts_wf()
        &&& forall|id: AuctionId|
            (#[trigger] self.auctions().contains_key(id)) ==> self.auctions()[id].wf()
        &&& self.pending().no_duplicates()
        &&& forall|i: int|
            0 <= i < self.pending().len() ==> self.auctions().contains_key(
                #[trigger] self.pending()[i],
            ) && self.auctions()[self.pending()[i]].due_at(self.block_height())
        &&& self.triggers() == index_of(self.auctions()).remove_keys(self.pending().to_set())
    }

    /// All steps of the block have been applied: no auction is pending.
    /// Then the index is complete.
    pub open spec fn synced(&self) -> bool {
        self.pending().len() == 0
    }

    /// Whether a transition on `id` may come next: while auctions are
    /// pending, the first of them is the one to move.
    pub open spec fn is_next(&self, id: AuctionId) -> bool {
        self.pending().len() > 0 ==> self.pending()[0] == id
    }

    /// The pending auctions once the first of them has become `auction`:
    /// it leaves the list when it is no longer due.
    pub open spec fn pending_after(&self, auction: DutchAuction) -> Seq<AuctionId> {
        if self.pending().len() > 0 && !auction.due_at(self.block_height()) {
            self.pending().drop_first()
        } else {
            self.pending()
        }
    }

    /// What a transition on one auction makes of the engine: `id` has
    /// become `auction`, and nothing else has changed.
    pub open spec fn moved(pre: Engine, post: Engine, id: AuctionId, auction: DutchAuction) -> bool {
        &&& post.auctions() == pre.auctions().insert(id, auction)
        &&& post.pending() == pre.pending_after(auction)
        &&& post.block_height() == pre.block_height()
    }

    /// What a rejection leaves of the engine: all of it.
    pub open spec fn untouched(pre: Engine, post: Engine) -> bool {
        &&& post.auctions() == pre.auctions()
        &&& post.pending() == pre.pending()
        &&& post.block_height() == pre.block_height()
    }

    /// When no auction is pending, the index holds the next trigger of
    /// every auction that has one, and nothing else: it can be had from the
    /// states alone.
    pub proof fn lemma_synced_index(&self)
        requires
            self.wf(),
            self.synced(),
        ensures
            self.triggers() == index_of(self.auctions()),
    {
        assert(self.pending().to_set() =~= Set::<AuctionId>::empty());
        assert(index_of(self.auctions()).remove_keys(Set::<AuctionId>::empty()) =~= index_of(
            self.auctions(),
        ));
    }

    /// What scheduling does: `post` and `r` are what becomes of `pre` when a
    /// description is submitted under `id` at `current_height`.
    ///
    /// A malformed description is rejected, and so is an id that is taken;
    /// neither changes anything. Otherwise the auction is recorded, and the
    /// answer is what `DutchAuction::spec_schedule` asks for.
    pub open spec fn scheduled(
        pre: Engine,
        post: Engine,
        id: AuctionId,
        description: DutchAuctionDescription,
        current_height: u64,
        r: Result<Action, Rejection>,
    ) -> bool {
        match DutchAuction::spec_schedule(description, current_height) {
            Err(rejection) => r == Err::<Action, Rejection>(rejection) && Self::untouched(
                pre,
                post,
            ),
            Ok((auction, action)) => if pre.auctions().contains_key(id) {
                r == Err::<Action, Rejection>(Rejection::AuctionExists) && Self::untouched(
                    pre,
                    post,
                )
            } else {
                &&& r == Ok::<Action, Rejection>(action)
                &&& post.auctions() == pre.auctions().insert(id, auction)
                &&& post.pending() == pre.pending()
                &&& post.block_height() == pre.block_height()
            },
        }
    }

    /// What ending does: an unknown id is rejected; a known auction goes
    /// through `DutchAuction::spec_end`.
    pub open spec fn ended(
        pre: Engine,
        post: Engine,
        id: AuctionId,
        claimed_seq: u64,
        r: Result<Action, Rejection>,
    ) -> bool {
        if pre.auctions().contains_key(id) {
            let (auction, expected) = pre.auctions()[id].spec_end(claimed_seq);
            r == expected && Self::moved(pre, post, id, auction)
        } else {
            r == Err::<Action, Rejection>(Rejection::UnknownAuction) && Self::untouched(pre, post)
        }
    }

    /// What withdrawing does: an unknown id is rejected; a known auction
    /// goes through `DutchAuction::spec_withdraw`.
    pub open spec fn withdrawn(
        pre: Engine,
        post: Engine,
        id: AuctionId,
        claimed_seq: u64,
        supplied: BalanceCommitment,
        recomputed: BalanceCommitment,
        r: Result<Action, Rejection>,
    ) -> bool {
        if pre.auctions().contains_key(id) {
            let (auction, expected) = pre.auctions()[id].spec_withdraw(
                claimed_seq,
                supplied,
                recomputed,
            );
            r == expected && Self::moved(pre, post, id, auction)
        } else {
            r == Err::<Action, Rejection>(Rejection::UnknownAuction) && Self::untouched(pre, post)
        }
    }

    /// An engine that knows no auction.
    pub fn new() -> (r: Engine)
        ensures
            r.wf(),
            r.synced(),
            r.auctions() == Map::<AuctionId, DutchAuction>::empty(),
    {
        let r = Engine {
            store: AuctionStore::new(),
            scheduler: TriggerScheduler::new(),
            pending: Vec::new(),
            height: 0,
        };
        assert(r.triggers() =~= index_of(r.auctions()).remove_keys(r.pending().to_set()));
        r
    }

    /// The description and state of the auction with this id, if there is
    /// one.
    pub fn state_by_id(&self, id: &AuctionId) -> (r: Option<DutchAuction>)
        requires
            self.wf(),
        ensures
            r == (if self.auctions().contains_key(*id) {
                Some(self.auctions()[*id])
            } else {
                None
            }),
    {
        self.store.get(id)
    }

    /// The positions that the auction with this id presently owns on the
    /// exchange: its current position, if it has one.
    pub fn positions_for(&self, id: &AuctionId) -> (r: Vec<PositionId>)
        requires
            self.wf(),
        ensures
            r@ == (if self.auctions().contains_key(*id) {
                match self.auctions()[*id].state.current_position {
                    Some(position) => seq![position],
                    None => Seq::<PositionId>::empty(),
                }
            } else {
                Seq::<PositionId>::empty()
            }),
    {
        let mut r: Vec<PositionId> = Vec::new();
        match self.store.get(id) {
            Some(auction) => match auction.state.current_position {
                Some(position) => {
                    r.push(position);
                    assert(r@ =~= seq![position]);
                },
                None => {},
            },
            None => {},
        }
        r
    }

    /// The height at which the auction with this id is indexed, if it is.
    pub fn trigger_of(&self, id: &AuctionId) -> (r: Option<u64>)
        requires
            self.wf(),
        ensures
            r == (if self.triggers().contains_key(*id) {
                Some(self.triggers()[*id])
            } else {
                None
            }),
    {
        self.scheduler.height_of(id)
    }

    /// Whether auctions are pending: handed out by `on_block_enter` and not
    /// stepped to the end yet.
    pub fn has_pending(&self) -> (r: bool)
        ensures
            r == !self.synced(),
    {
        self.pending.len() > 0
    }

    /// The pending auction that is to be stepped next, if any is pending.
    pub fn next_pending(&self) -> (r: Option<AuctionId>)
        ensures
            r == (if self.pending().len() > 0 {
                Some(self.pending()[0])
            } else {
                None
            }),
    {
        if self.pending.len() > 0 {
            Some(self.pending[0])
        } else {
            None
        }
    }

    /// Whether a transition on `id` may come next.
    pub fn may_move(&self, id: &AuctionId) -> (r: bool)
        ensures
            r == self.is_next(*id),
    {
        self.pending.len() == 0 || self.pending[0].equals(id)
    }

    /// The height of the block entered last.
    pub fn current_height(&self) -> (r: u64)
        ensures
            r == self.block_height(),
    {
        self.height
    }

    /// Writes the new state of a known auction and brings the pending list
    /// and the index in line with it. The old index entry is cancelled,
    /// whatever it was, before a new one is made.
    fn commit(&mut self, id: &AuctionId, auction: &DutchAuction)
        requires
            old(self).wf(),
            old(self).is_next(*id),
            old(self).auctions().contains_key(*id),
            old(self).auctions()[*id].description == auction.description,
            auction.wf(),
        ensures
            final(self).wf(),
            Self::moved(*old(self), *final(self), *id, *auction),
    {
        let ghost pre = *self;
        self.store.put_state(id, auction.state);
        let waits: bool = self.pending.len() > 0 && auction.is_due(self.height);
        if !waits {
            if self.pending.len() > 0 {
                self.pending.remove(0);
                assert(self.pending@ =~= pre.pending().drop_first());
            }
            self.scheduler.cancel(id);
            match auction.state.next_trigger {
                Some(height) => {
                    self.scheduler.schedule(height, *id);
                },
                None => {},
            }
        }
        proof {
            let before = pre.pending();
            let after = self.pending();
            assert forall|i: int| 0 <= i < after.len() implies self.auctions().contains_key(
                #[trigger] after[i],
            ) && self.auctions()[after[i]].due_at(self.block_height()) && (!waits ==> after[i]
                != *id) by {
                if waits {
                    assert(after[i] == before[i]);
                    if i > 0 {
                        assert(before[i] != before[0]);
                    }
                } else if before.len() > 0 {
                    assert(after[i] == before[i + 1]);
                    assert(before[i + 1] != before[0]);
                }
            }
            assert forall|k: AuctionId| #[trigger] after.to_set().contains(k) <==> before.to_set().contains(
                k,
            ) && (waits || k != *id) by {
                if after.contains(k) {
                    let i = choose|i: int| 0 <= i < after.len() && after[i] == k;
                    if waits {
                        assert(before[i] == k);
                    } else {
                        assert(before[i + 1] == k);
                    }
                }
                if before.contains(k) && (waits || k != *id) {
                    let i = choose|i: int| 0 <= i < before.len() && before[i] == k;
                    if waits {
                        assert(after[i] == k);
                    } else {
                        assert(i > 0);
                        assert(after[i - 1] == k);
                    }
                }
            }
            assert(after.no_duplicates()) by {
                if !waits && before.len() > 0 {
                    assert forall|i: int, j: int|
                        0 <= i < after.len() && 0 <= j < after.len() && i != j implies after[i]
                        != after[j] by {
                        assert(before[i + 1] != before[j + 1]);
                    }
                }
            }
            assert(self.triggers() =~= index_of(self.auctions()).remove_keys(after.to_set()));
        }
    }

    /// Enters the block at `height`: takes every due auction off the index
    /// and lists them in processing order, by trigger height and then by
    /// the byte order of their ids. They are pending from now on: each of
    /// them is to be stepped at `height`, in that order, before any action
    /// of the block is applied.
    pub fn on_block_enter(&mut self, height: u64) -> (ids: Vec<AuctionId>)
        requires
            old(self).wf(),
            old(self).synced(),
        ensures
            final(self).wf(),
            final(self).auctions() == old(self).auctions(),
            final(self).block_height() == height,
            final(self).pending() == ids@,
            ids@.to_set() == due(index_of(old(self).auctions()), height),
            ids@.no_duplicates(),
            in_processing_order(ids@, index_of(old(self).auctions())),
    {
        proof {
            self.lemma_synced_index();
        }
        let popped = self.scheduler.pop_due(height);
        let mut ids: Vec<AuctionId> = Vec::new();
        let mut i: usize = 0;
        while i < popped.len()
            invariant
                i <= popped@.len(),
                ids@ == popped@.subrange(0, i as int),
            decreases popped@.len() - i,
        {
            ids.push(popped[i]);
            assert(ids@ =~= popped@.subrange(0, i + 1));
            i += 1;
        }
        assert(ids@ =~= popped@);
        self.pending = popped;
        self.height = height;
        proof {
            assert forall|i: int| 0 <= i < ids@.len() implies self.auctions().contains_key(
                #[trigger] ids@[i],
            ) && self.auctions()[ids@[i]].due_at(height) by {
                assert(ids@.to_set().contains(ids@[i]));
            }
        }
        ids
    }

    /// Schedules the auction that `description` describes, under `id`, at
    /// `current_height`.
    ///
    /// A malformed description is rejected, and so is an id that is taken:
    /// a description is written once. Where the auction's start height has
    /// been reached, the answer is the position to open for it. Like every
    /// action, it comes after the steps of its block.
    pub fn schedule(
        &mut self,
        id: AuctionId,
        description: DutchAuctionDescription,
        current_height: u64,
    ) -> (r: Result<Action, Rejection>)
        requires
            old(self).wf(),
            old(self).synced(),
        ensures
            final(self).wf(),
            Self::scheduled(*old(self), *final(self), id, description, current_height, r),
    {
        proof {
            self.lemma_synced_index();
        }
        match DutchAuction::schedule(description, current_height) {
            Err(rejection) => Err(rejection),
            Ok((auction, action)) => {
                if !self.store.insert(id, auction) {
                    assert(self.triggers() == old(self).triggers());
                    return Err(Rejection::AuctionExists);
                }
                assert(!old(self).triggers().contains_key(id));
                self.scheduler.schedule(description.start_height, id);
                proof {
                    assert(self.pending().to_set() =~= Set::<AuctionId>::empty());
                    assert(self.triggers() =~= index_of(self.auctions()).remove_keys(
                        self.pending().to_set(),
                    ));
                }
                Ok(action)
            },
        }
    }

    /// Steps the auction with this id at `height`.
    ///
    /// While auctions are pending, the first of them is the one to step,
    /// at the height of the block.
    pub fn step(&mut self, id: &AuctionId, height: u64) -> (action: Action)
        requires
            old(self).wf(),
            old(self).auctions().contains_key(*id),
            old(self).is_next(*id),
            !old(self).synced() ==> height == old(self).block_height(),
        ensures
            final(self).wf(),
            action == old(self).auctions()[*id].spec_step(height).1,
            Self::moved(
                *old(self),
                *final(self),
                *id,
                old(self).auctions()[*id].spec_step(height).0,
            ),
    {
        let mut auction = self.store.get(id).unwrap();
        let action = auction.step(height);
        self.commit(id, &auction);
        action
    }

    /// Records that the exchange has closed the position of the auction
    /// with this id and handed back `recovered`.
    pub fn position_closed(&mut self, id: &AuctionId, recovered: Reserves)
        requires
            old(self).wf(),
            old(self).auctions().contains_key(*id),
            old(self).is_next(*id),
            old(self).auctions()[*id].can_recover(recovered),
        ensures
            final(self).wf(),
            Self::moved(
                *old(self),
                *final(self),
                *id,
                old(self).auctions()[*id].spec_position_closed(recovered),
            ),
    {
        let mut auction = self.store.get(id).unwrap();
        auction.position_closed(recovered);
        self.commit(id, &auction);
    }

    /// Records that the exchange has opened `position` for the auction with
    /// this id at `height`.
    pub fn position_opened(&mut self, id: &AuctionId, position: PositionId, height: u64)
        requires
            old(self).wf(),
            old(self).auctions().contains_key(*id),
            old(self).is_next(*id),
            old(self).auctions()[*id].due_at(height),
            old(self).auctions()[*id].state.current_position is None,
        ensures
            final(self).wf(),
            Self::moved(
                *old(self),
                *final(self),
                *id,
                old(self).auctions()[*id].spec_position_opened(position, height),
            ),
    {
        let mut auction = self.store.get(id).unwrap();
        auction.position_opened(position, height);
        self.commit(id, &auction);
    }

    /// Ends the auction with this id for an owner who presents
    /// `claimed_seq`. Like every action, it comes after the steps of its
    /// block.
    pub fn end(&mut self, id: &AuctionId, claimed_seq: u64) -> (r: Result<Action, Rejection>)
        requires
            old(self).wf(),
            old(self).synced(),
        ensures
            final(self).wf(),
            final(self).synced(),
            Self::ended(*old(self), *final(self), *id, claimed_seq, r),
    {
        match self.store.get(id) {
            None => Err(Rejection::UnknownAuction),
            Some(found) => {
                let mut auction = found;
                let r = auction.end(claimed_seq);
                self.commit(id, &auction);
                r
            },
        }
    }

    /// Withdraws the reserves of the auction with this id for an owner who
    /// presents `claimed_seq` and the commitment `supplied`, where
    /// `recomputed` is the commitment to the reserves that the auction
    /// holds. Like every action, it comes after the steps of its block.
    pub fn withdraw(
        &mut self,
        id: &AuctionId,
        claimed_seq: u64,
        supplied: &BalanceCommitment,
        recomputed: &ReservesCommitment,
    ) -> (r: Result<Action, Rejection>)
        requires
            old(self).wf(),
            old(self).synced(),
            old(self).auctions().contains_key(*id) ==> recomputed.is_over(old(self).auctions()[*id]),
        ensures
            final(self).wf(),
            final(self).synced(),
            Self::withdrawn(
                *old(self),
                *final(self),
                *id,
                claimed_seq,
                *supplied,
                recomputed.commitment,
                r,
            ),
    {
        match self.store.get(id) {
            None => Err(Rejection::UnknownAuction),
            Some(found) => {
                let mut auction = found;
                let r = auction.withdraw(claimed_seq, supplied, recomputed);
                self.commit(id, &auction);
                r
            },
        }
    }

    /// Applies one action of a transaction at `height`: the guard first,
    /// then the transition, and a typed rejection where either refuses.
    /// The steps of the block come before its actions: no auction is
    /// pending.
    pub fn apply_action(&mut self, action: &AuctionAction, height: u64) -> (r: Result<
        Action,
        Rejection,
    >)
        requires
            old(self).wf(),
            old(self).synced(),
            action matches AuctionAction::Withdraw { action: withdrawal, recomputed } ==> (old(
                self,
            ).auctions().contains_key(withdrawal.auction_id) ==> recomputed.is_over(
                old(self).auctions()[withdrawal.auction_id],
            )),
        ensures
            final(self).wf(),
            final(self).synced(),
            match *action {
                AuctionAction::Schedule { id, action: schedule } => Self::scheduled(
                    *old(self),
                    *final(self),
                    id,
                    schedule.description,
                    height,
                    r,
                ),
                AuctionAction::End { action: end, auth_seq } => Self::ended(
                    *old(self),
                    *final(self),
                    end.auction_id,
                    auth_seq,
                    r,
                ),
                AuctionAction::Withdraw { action: withdrawal, recomputed } => Self::withdrawn(
                    *old(self),
                    *final(self),
                    withdrawal.auction_id,
                    withdrawal.seq,
                    withdrawal.reserves_commitment,
                    recomputed.commitment,
                    r,
                ),
            },
    {
        match action {
            AuctionAction::Schedule { id, action: schedule } => self.schedule(
                *id,
                schedule.description,
                height,
            ),
            AuctionAction::End { action: end, auth_seq } => self.end(&end.auction_id, *auth_seq),
            AuctionAction::Withdraw { action: withdrawal, recomputed } => self.withdraw(
                &withdrawal.auction_id,
                withdrawal.seq,
                &withdrawal.reserves_commitment,
                recomputed,
            ),
        }
    }

    /// The ids of all auctions that the engine knows, in byte order.
    pub fn ids(&self) -> (ids: Vec<AuctionId>)
        requires
            self.wf(),
        ensures
            ids@.to_set() == self.auctions().dom(),
            forall|i: int, j: int|
                0 <= i < j < ids@.len() ==> (#[trigger] ids@[i]).before(#[trigger] ids@[j]),
    {
        self.store.ids()
    }

    /// Builds the index anew from the states of the auctions alone, and
    /// forgets which auctions were pending: those that are still due are
    /// handed out again when the next block is entered.
    pub fn rebuild_index(&mut self)
        requires
            old(self).wf(),
        ensures
            final(self).wf(),
            final(self).synced(),
            final(self).auctions() == old(self).auctions(),
            final(self).block_height() == old(self).block_height(),
    {
        self.scheduler = index_from(&self.store);
        self.pending = Vec::new();
        proof {
            assert(self.pending().to_set() =~= Set::<AuctionId>::empty());
            assert(self.triggers() =~= index_of(self.auctions()).remove_keys(
                self.pending().to_set(),
            ));
        }
    }

    /// Whether `records` can be the content of an engine: every record is
    /// well formed, and no id occurs twice.
    pub open spec fn restorable(records: Seq<AuctionRecord>) -> bool {
        &&& forall|i: int| 0 <= i < records.len() ==> (#[trigger] records[i]).auction.wf()
        &&& forall|i: int, j: int|
            0 <= i < j < records.len() ==> (#[trigger] records[i]).id != (#[trigger] records[j]).id
    }

    /// Whether the engine holds exactly the auctions of `records`.
    pub open spec fn holds(&self, records: Seq<AuctionRecord>) -> bool {
        &&& forall|i: int|
            0 <= i < records.len() ==> self.auctions().contains_key((#[trigger] records[i]).id)
                && self.auctions()[records[i].id] == records[i].auction
        &&& forall|id: AuctionId|
            self.auctions().contains_key(id) ==> exists|i: int|
                0 <= i < records.len() && (#[trigger] records[i]).id == id
    }

    /// An engine with the given records, at the given height, as when the
    /// chain starts again from what it has stored. The index is built from
    /// the states of the auctions alone. `None` where a record is not well
    /// formed or an id occurs twice.
    pub fn restore(records: &Vec<AuctionRecord>, height: u64) -> (r: Option<Engine>)
        ensures
            r is Some <==> Self::restorable(records@),
            r matches Some(engine) ==> {
                &&& engine.wf()
                &&& engine.synced()
                &&& engine.block_height() == height
                &&& engine.holds(records@)
            },
    {
        let mut store = AuctionStore::new();
        let mut k: usize = 0;
        while k < records.len()
            invariant
                k <= records@.len(),
                store.wf(),
                Self::restorable(records@.subrange(0, k as int)),
                forall|i: int|
                    0 <= i < k ==> store@.contains_key((#[trigger] records@[i]).id)
                        && store@[records@[i].id] == records@[i].auction,
                forall|id: AuctionId|
                    store@.contains_key(id) ==> exists|i: int|
                        0 <= i < k && (#[trigger] records@[i]).id == id,
            decreases records@.len() - k,
        {
            let record = records[k];
            let ghost before = store@;
            if !record.auction.check() || !store.insert(record.id, record.auction) {
                proof {
                    if Self::restorable(records@) {
                        assert(records@[k as int].auction.wf());
                        let i = choose|i: int| 0 <= i < k && (#[trigger] records@[i]).id == record.id;
                        assert(records@[i].id != records@[k as int].id);
                    }
                }
                return None;
            }
            proof {
                let was = records@.subrange(0, k as int);
                let done = records@.subrange(0, k + 1);
                assert forall|i: int, j: int| 0 <= i < j < done.len() implies (#[trigger] done[i]).id
                    != (#[trigger] done[j]).id by {
                    if j < k {
                        assert(was[i].id != was[j].id);
                    } else {
                        assert(before.contains_key(records@[i].id));
                    }
                }
                assert forall|i: int| 0 <= i < done.len() implies (#[trigger] done[i]).auction.wf() by {
                    if i < k {
                        assert(was[i].auction.wf());
                    }
                }
                assert forall|id: AuctionId| store@.contains_key(id) implies exists|i: int|
                    0 <= i < k + 1 && (#[trigger] records@[i]).id == id by {
                    if id == record.id {
                        assert(records@[k as int].id == id);
                    } else {
                        let i = choose|i: int| 0 <= i < k && (#[trigger] records@[i]).id == id;
                        assert(0 <= i < k + 1 && records@[i].id == id);
                    }
                }
                assert forall|i: int| 0 <= i < k + 1 implies store@.contains_key(
                    (#[trigger] records@[i]).id,
                ) && store@[records@[i].id] == records@[i].auction by {
                    if i < k {
                        assert(before.contains_key(records@[i].id));
                    }
                }
            }
            k += 1;
        }
        assert(records@.subrange(0, k as int) =~= records@);
        let scheduler = index_from(&store);
        let engine = Engine { store, scheduler, pending: Vec::new(), height };
        proof {
            assert(engine.pending().to_set() =~= Set::<AuctionId>::empty());
            assert(engine.triggers() =~= index_of(engine.auctions()).remove_keys(
                engine.pending().to_set(),
            ));
            assert forall|id: AuctionId| #[trigger]
                engine.auctions().contains_key(id) implies engine.auctions()[id].wf() by {
                let i = choose|i: int| 0 <= i < records@.len() && (#[trigger] records@[i]).id == id;
                assert(records@[i].auction.wf());
            }
        }
        Some(engine)
    }
}

/// The index that the states of the stored auctions call for.
fn index_from(store: &AuctionStore) -> (fresh: TriggerScheduler)
    requires
        store.wf(),
    ensures
        fresh.wf(),
        fresh@ == index_of(store@),
{
    let ids = store.ids();
    let mut fresh = TriggerScheduler::new();
    let mut k: usize = 0;
    while k < ids.len()
        invariant
            store.wf(),
            fresh.wf(),
            k <= ids@.len(),
            ids@.to_set() == store@.dom(),
            forall|id: AuctionId| #[trigger]
                fresh@.contains_key(id) <==> (index_of(store@).contains_key(id) && exists|j: int|
                    0 <= j < k && ids@[j] == id),
            forall|id: AuctionId| #[trigger]
                fresh@.contains_key(id) ==> fresh@[id] == index_of(store@)[id],
        decreases ids@.len() - k,
    {
        let id = ids[k];
        proof {
            assert(ids@.to_set().contains(id));
        }
        let ghost before = fresh@;
        match store.get(&id) {
            Some(auction) => match auction.state.next_trigger {
                Some(height) => {
                    fresh.schedule(height, id);
                },
                None => {},
            },
            None => {},
        }
        proof {
            assert forall|other: AuctionId| #[trigger]
                fresh@.contains_key(other) <==> (index_of(store@).contains_key(other) && exists|
                    j: int,
                |
                    0 <= j < k + 1 && ids@[j] == other) by {
                if before.contains_key(other) {
                    let j = choose|j: int| 0 <= j < k && ids@[j] == other;
                    assert(0 <= j < k + 1 && ids@[j] == other);
                }
                if index_of(store@).contains_key(other) && exists|j: int|
                    0 <= j < k + 1 && ids@[j] == other {
                    let j = choose|j: int| 0 <= j < k + 1 && ids@[j] == other;
                    if j < k {
                        assert(0 <= j < k && ids@[j] == other);
                    }
                }
                if other == id {
                    assert(0 <= k < k + 1 && ids@[k as int] == other);
                }
            }
        }
        k += 1;
    }
    proof {
        assert forall|id: AuctionId| #[trigger]
            fresh@.contains_key(id) == index_of(store@).contains_key(id) by {
            if index_of(store@).contains_key(id) {
                assert(ids@.to_set().contains(id));
                let j = choose|j: int| 0 <= j < ids@.len() && ids@[j] == id;
                assert(0 <= j < k && ids@[j] == id);
            }
        }
        assert(fresh@ =~= index_of(store@));
    }
    fresh
}

} // verus!
