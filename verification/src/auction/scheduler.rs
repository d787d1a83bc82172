//! The trigger scheduler: which auction must be stepped or ended at which
//! height.
//!
//! The scheduler is an index, not a second source of truth: it holds, for
//! each auction that still has work scheduled, the height of that work, and
//! hands out the auctions that are due in one fixed order on every node.

use vstd::prelude::*;
use vstd::seq_lib::seq_to_set_is_finite;
use crate::auction::id::AuctionId;
use crate::bytes32::{
    lemma_precedes_irreflexive, lemma_precedes_total, lemma_precedes_transitive,
};

verus! {

/// One entry of the scheduler: the auction `id` has work to do at `height`.
#[derive(Clone, Copy, Debug, PartialEq, Eq)]
pub struct Trigger {
    pub height: u64,
    pub id: AuctionId,
}

impl Trigger {
    /// The order in which triggers are processed: by height, and among
    /// triggers of one height by the byte order of the auction ids.
    pub open spec fn before(self, other: Trigger) -> bool {
        self.height < other.height || (self.height == other.height && self.id.before(other.id))
    }

    /// Whether this trigger is processed before `other`.
    pub fn precedes(&self, other: &Trigger) -> (r: bool)
        ensures
            r == self.before(*other),
    {
        self.height < other.height || (self.height == other.height && self.id.precedes(&other.id))
    }

    /// The processing order is transitive.
    pub proof fn lemma_before_transitive(a: Trigger, b: Trigger, c: Trigger)
        requires
            a.before(b),
            b.before(c),
        ensures
            a.before(c),
    {
        if a.height == b.height && b.height == c.height {
            lemma_precedes_transitive(a.id.inner@, b.id.inner@, c.id.inner@);
        }
    }

    /// Two triggers are the same, or one is processed before the other.
    pub proof fn lemma_before_total(a: Trigger, b: Trigger)
        ensures
            a == b || a.before(b) || b.before(a),
    {
        if a.height == b.height {
            lemma_precedes_total(a.id.inner@, b.id.inner@);
            if a.id.inner@ == b.id.inner@ {
                assert(a.id.inner =~= b.id.inner);
            }
        }
    }
}

/// No auction has two entries.
pub open spec fn distinct_ids(s: Seq<Trigger>) -> bool {
    forall|i: int, j: int| 0 <= i < j < s.len() ==> (#[trigger] s[i]).id != (#[trigger] s[j]).id
}

/// Every entry is processed before all entries that stand before it.
pub open spec fn descending(s: Seq<Trigger>) -> bool {
    forall|i: int, j: int| 0 <= i < j < s.len() ==> (#[trigger] s[j]).before(#[trigger] s[i])
}

/// Whether `s` has an entry for `id` at place `i`.
pub open spec fn entry_at(s: Seq<Trigger>, id: AuctionId, i: int) -> bool {
    0 <= i < s.len() && s[i].id == id
}

/// The heights that a list of entries schedules, by auction.
pub open spec fn pending_of(s: Seq<Trigger>) -> Map<AuctionId, u64> {
    Map::new(
        |id: AuctionId| exists|i: int| entry_at(s, id, i),
        |id: AuctionId| s[choose|i: int| entry_at(s, id, i)].height,
    )
}

/// The auctions that are due at `height`: those scheduled at it or before.
pub open spec fn due(pending: Map<AuctionId, u64>, height: u64) -> Set<AuctionId> {
    Set::new(|id: AuctionId| pending.contains_key(id) && pending[id] <= height)
}

/// Whether `ids` lists auctions in processing order, each at the height at
/// which `pending` schedules it.
pub open spec fn in_processing_order(ids: Seq<AuctionId>, pending: Map<AuctionId, u64>) -> bool {
    forall|i: int, j: int|
        0 <= i < j < ids.len() ==> (Trigger {
            height: pending[#[trigger] ids[i]],
            id: ids[i],
        }).before(Trigger { height: pending[#[trigger] ids[j]], id: ids[j] })
}

proof fn lemma_pending_at(s: Seq<Trigger>, i: int)
    requires
        distinct_ids(s),
        0 <= i < s.len(),
    ensures
        pending_of(s).contains_key(s[i].id),
        pending_of(s)[s[i].id] == s[i].height,
{
    let id = s[i].id;
    assert(entry_at(s, id, i));
    let j = choose|j: int| entry_at(s, id, j);
    if j < i {
        assert(s[j].id != s[i].id);
    } else if i < j {
        assert(s[i].id != s[j].id);
    }
}

proof fn lemma_pending_count(s: Seq<Trigger>)
    requires
        distinct_ids(s),
    ensures
        pending_of(s).dom().finite(),
        pending_of(s).dom().len() == s.len(),
{
    let ids = Seq::new(s.len(), |i: int| s[i].id);
    assert forall|i: int, j: int| 0 <= i < ids.len() && 0 <= j < ids.len() && i != j implies ids[i]
        != ids[j] by {
        if i < j {
            assert(s[i].id != s[j].id);
        } else {
            assert(s[j].id != s[i].id);
        }
    }
    assert forall|id: AuctionId| #[trigger] ids.to_set().contains(id) == pending_of(
        s,
    ).dom().contains(id) by {
        if ids.contains(id) {
            let i = choose|i: int| 0 <= i < ids.len() && ids[i] == id;
            assert(entry_at(s, id, i));
        }
        if pending_of(s).contains_key(id) {
            let i = choose|i: int| entry_at(s, id, i);
            assert(ids[i] == id);
        }
    }
    assert(ids.to_set() =~= pending_of(s).dom());
    seq_to_set_is_finite(ids);
    ids.unique_seq_to_set();
}

proof fn lemma_pending_insert(s: Seq<Trigger>, at: int, t: Trigger)
    requires
        distinct_ids(s),
        0 <= at <= s.len(),
        !pending_of(s).contains_key(t.id),
    ensures
        distinct_ids(s.insert(at, t)),
        pending_of(s.insert(at, t)) == pending_of(s).insert(t.id, t.height),
{
    let s2 = s.insert(at, t);
    assert forall|i: int, j: int| 0 <= i < j < s2.len() implies (#[trigger] s2[i]).id != (
    #[trigger] s2[j]).id by {
        let oi = if i < at { i } else { i - 1 };
        let oj = if j < at { j } else { j - 1 };
        if i == at {
            assert(entry_at(s, s[oj].id, oj));
        } else if j == at {
            assert(entry_at(s, s[oi].id, oi));
        } else {
            assert(s[oi].id != s[oj].id);
        }
    }
    assert forall|id: AuctionId| #[trigger]
        pending_of(s2).contains_key(id) == pending_of(s).insert(t.id, t.height).contains_key(
            id,
        ) by {
        if pending_of(s2).contains_key(id) {
            let i = choose|i: int| entry_at(s2, id, i);
            if i != at {
                let oi = if i < at { i } else { i - 1 };
                assert(entry_at(s, id, oi));
            }
        }
        if pending_of(s).contains_key(id) {
            let i = choose|i: int| entry_at(s, id, i);
            let ni = if i < at { i } else { i + 1 };
            assert(entry_at(s2, id, ni));
        }
        if id == t.id {
            assert(entry_at(s2, id, at));
        }
    }
    assert forall|id: AuctionId| #[trigger] pending_of(s2).contains_key(id) implies pending_of(
        s2,
    )[id] == pending_of(s).insert(t.id, t.height)[id] by {
        let i = choose|i: int| entry_at(s2, id, i);
        lemma_pending_at(s2, i);
        if i != at {
            let oi = if i < at { i } else { i - 1 };
            lemma_pending_at(s, oi);
        }
    }
    assert(pending_of(s2) =~= pending_of(s).insert(t.id, t.height));
}

proof fn lemma_pending_remove(s: Seq<Trigger>, at: int)
    requires
        distinct_ids(s),
        0 <= at < s.len(),
    ensures
        distinct_ids(s.remove(at)),
        pending_of(s.remove(at)) == pending_of(s).remove(s[at].id),
{
    let s2 = s.remove(at);
    assert forall|i: int, j: int| 0 <= i < j < s2.len() implies (#[trigger] s2[i]).id != (
    #[trigger] s2[j]).id by {
        let oi = if i < at { i } else { i + 1 };
        let oj = if j < at { j } else { j + 1 };
        assert(s[oi].id != s[oj].id);
    }
    assert forall|id: AuctionId| #[trigger]
        pending_of(s2).contains_key(id) == pending_of(s).remove(s[at].id).contains_key(id) by {
        if pending_of(s2).contains_key(id) {
            let i = choose|i: int| entry_at(s2, id, i);
            let oi = if i < at { i } else { i + 1 };
            assert(entry_at(s, id, oi));
            if at < oi {
                assert(s[at].id != s[oi].id);
            } else {
                assert(s[oi].id != s[at].id);
            }
        }
        if pending_of(s).contains_key(id) && id != s[at].id {
            let i = choose|i: int| entry_at(s, id, i);
            let ni = if i < at { i } else { i - 1 };
            assert(entry_at(s2, id, ni));
        }
    }
    assert forall|id: AuctionId| #[trigger] pending_of(s2).contains_key(id) implies pending_of(
        s2,
    )[id] == pending_of(s).remove(s[at].id)[id] by {
        let i = choose|i: int| entry_at(s2, id, i);
        lemma_pending_at(s2, i);
        let oi = if i < at { i } else { i + 1 };
        lemma_pending_at(s, oi);
    }
    assert(pending_of(s2) =~= pending_of(s).remove(s[at].id));
}

/// The index from heights to the auctions that have work scheduled there.
pub struct TriggerScheduler {
    /// The entries, last to be processed first; no auction twice.
    entries: Vec<Trigger>,
}

impl View for TriggerScheduler {
    type V = Map<AuctionId, u64>;

    /// What is scheduled: the height of its next work, for each auction
    /// that has any.
    closed spec fn view(&self) -> Map<AuctionId, u64> {
        pending_of(self.entries@)
    }
}

impl TriggerScheduler {
    /// The invariant of the index.
    pub closed spec fn wf(&self) -> bool {
        &&& descending(self.entries@)
        &&& distinct_ids(self.entries@)
    }

    /// An index in which nothing is scheduled.
    pub fn new() -> (r: TriggerScheduler)
        ensures
            r.wf(),
            r@ == Map::<AuctionId, u64>::empty(),
    {
        let r = TriggerScheduler { entries: Vec::new() };
        assert(r@ =~= Map::<AuctionId, u64>::empty());
        r
    }

    /// The number of auctions that have work scheduled.
    pub fn len(&self) -> (r: usize)
        requires
            self.wf(),
        ensures
            self@.dom().finite(),
            r == self@.dom().len(),
    {
        proof {
            lemma_pending_count(self.entries@);
        }
        self.entries.len()
    }

    /// Whether nothing is scheduled.
    pub fn is_empty(&self) -> (r: bool)
        requires
            self.wf(),
        ensures
            r == (self@ == Map::<AuctionId, u64>::empty()),
    {
        proof {
            if self.entries@.len() > 0 {
                lemma_pending_at(self.entries@, 0);
            } else {
                assert(self@ =~= Map::<AuctionId, u64>::empty());
            }
        }
        self.entries.len() == 0
    }

    /// The height at which `id` has work scheduled, if it has any.
    pub fn height_of(&self, id: &AuctionId) -> (r: Option<u64>)
        requires
            self.wf(),
        ensures
            r == (if self@.contains_key(*id) {
                Some(self@[*id])
            } else {
                None
            }),
    {
        match self.find(id) {
            Some(i) => Some(self.entries[i].height),
            None => None,
        }
    }

    /// The earliest height at which anything is scheduled.
    pub fn next_height(&self) -> (r: Option<u64>)
        requires
            self.wf(),
        ensures
            r is None <==> self@ == Map::<AuctionId, u64>::empty(),
            r matches Some(h) ==> {
                &&& exists|id: AuctionId| self@.contains_key(id) && self@[id] == h
                &&& forall|id: AuctionId| self@.contains_key(id) ==> h <= #[trigger] self@[id]
            },
    {
        let n: usize = self.entries.len();
        if n == 0 {
            assert(self@ =~= Map::<AuctionId, u64>::empty());
            None
        } else {
            let last = self.entries[n - 1];
            proof {
                let s = self.entries@;
                lemma_pending_at(s, n - 1);
                assert(self@.contains_key(last.id) && self@[last.id] == last.height);
                assert forall|id: AuctionId| self@.contains_key(id) implies last.height
                    <= #[trigger] self@[id] by {
                    let i = choose|i: int| entry_at(s, id, i);
                    lemma_pending_at(s, i);
                    if i < n - 1 {
                        assert(s[n - 1].before(s[i]));
                    }
                }
            }
            Some(last.height)
        }
    }

    /// Where the entry of `id` stands, if it has one.
    fn find(&self, id: &AuctionId) -> (r: Option<usize>)
        requires
            self.wf(),
        ensures
            r is Some <==> self@.contains_key(*id),
            r matches Some(i) ==> i < self.entries@.len() && self.entries@[i as int].id == *id
                && self@[*id] == self.entries@[i as int].height,
    {
        let mut i: usize = 0;
        while i < self.entries.len()
            invariant
                self.wf(),
                i <= self.entries@.len(),
                forall|j: int| 0 <= j < i ==> self.entries@[j].id != *id,
            decreases self.entries@.len() - i,
        {
            if self.entries[i].id.equals(id) {
                proof {
                    lemma_pending_at(self.entries@, i as int);
                }
                return Some(i);
            }
            i += 1;
        }
        proof {
            if self@.contains_key(*id) {
                let j = choose|j: int| entry_at(self.entries@, *id, j);
                assert(self.entries@[j].id != *id);
            }
        }
        None
    }

    /// The number of entries that are processed after `t`. They stand
    /// first.
    fn rank(&self, t: &Trigger) -> (r: usize)
        requires
            self.wf(),
        ensures
            r <= self.entries@.len(),
            forall|i: int| 0 <= i < r ==> t.before(#[trigger] self.entries@[i]),
            forall|i: int| r <= i < self.entries@.len() ==> !t.before(#[trigger] self.entries@[i]),
    {
        let mut lo: usize = 0;
        let mut hi: usize = self.entries.len();
        while lo < hi
            invariant
                self.wf(),
                lo <= hi <= self.entries@.len(),
                forall|i: int| 0 <= i < lo ==> t.before(#[trigger] self.entries@[i]),
                forall|i: int| hi <= i < self.entries@.len() ==> !t.before(#[trigger] self.entries@[i]),
            decreases hi - lo,
        {
            let mid: usize = lo + (hi - lo) / 2;
            if t.precedes(&self.entries[mid]) {
                proof {
                    let s = self.entries@;
                    assert forall|i: int| 0 <= i < mid + 1 implies t.before(#[trigger] s[i]) by {
                        if i < mid {
                            assert(s[mid as int].before(s[i]));
                            Trigger::lemma_before_transitive(*t, s[mid as int], s[i]);
                        }
                    }
                }
                lo = mid + 1;
            } else {
                proof {
                    let s = self.entries@;
                    assert forall|i: int| mid <= i < s.len() implies !t.before(#[trigger] s[i]) by {
                        if mid < i && t.before(s[i]) {
                            assert(s[i].before(s[mid as int]));
                            Trigger::lemma_before_transitive(*t, s[i], s[mid as int]);
                        }
                    }
                }
                hi = mid;
            }
        }
        lo
    }

    /// Schedules work for `id` at `height`.
    ///
    /// An auction is scheduled at one height at a time: whoever moves its
    /// work to another height cancels it first.
    pub fn schedule(&mut self, height: u64, id: AuctionId)
        requires
            old(self).wf(),
            old(self)@.contains_key(id) ==> old(self)@[id] == height,
        ensures
            final(self).wf(),
            final(self)@ == old(self)@.insert(id, height),
            final(self)@ == (SchedulerCall::Schedule { height, id }).apply(old(self)@),
    {
        let t = Trigger { height, id };
        let at: usize = self.rank(&t);
        let ghost s = self.entries@;
        if at < self.entries.len() {
            let found = self.entries[at];
            if found.height == height && found.id.equals(&id) {
                proof {
                    lemma_pending_at(s, at as int);
                    assert(self@ =~= self@.insert(id, height));
                }
                return ;
            }
        }
        proof {
            // `id` has no entry: one at the same height would stand at `at`.
            if pending_of(s).contains_key(id) {
                let i = choose|i: int| entry_at(s, id, i);
                lemma_pending_at(s, i);
                assert(s[i] == t);
                if i < at {
                    assert(t.before(s[i]));
                    lemma_precedes_irreflexive(t.id.inner@);
                } else if i > at {
                    assert(s[i].before(s[at as int]));
                }
            }
            lemma_pending_insert(s, at as int, t);
            let s2 = s.insert(at as int, t);
            assert forall|i: int, j: int| 0 <= i < j < s2.len() implies (#[trigger] s2[j]).before(
                #[trigger] s2[i],
            ) by {
                let oi = if i < at { i } else { i - 1 };
                let oj = if j < at { j } else { j - 1 };
                if i == at {
                    assert(!t.before(s[oj]));
                    Trigger::lemma_before_total(t, s[oj]);
                    assert(entry_at(s, s[oj].id, oj));
                } else if j == at {
                    assert(t.before(s[oi]));
                } else {
                    assert(s[oj].before(s[oi]));
                }
            }
        }
        self.entries.insert(at, t);
    }

    /// Takes `id` off the index, whatever height it is scheduled at, and
    /// says which that was.
    pub fn cancel(&mut self, id: &AuctionId) -> (r: Option<u64>)
        requires
            old(self).wf(),
        ensures
            final(self).wf(),
            final(self)@ == old(self)@.remove(*id),
            final(self)@ == (SchedulerCall::Cancel { id: *id }).apply(old(self)@),
            r == (if old(self)@.contains_key(*id) {
                Some(old(self)@[*id])
            } else {
                None
            }),
    {
        match self.find(id) {
            Some(i) => {
                proof {
                    lemma_pending_remove(self.entries@, i as int);
                    let s = self.entries@;
                    let s2 = s.remove(i as int);
                    assert forall|a: int, b: int| 0 <= a < b < s2.len() implies (
                    #[trigger] s2[b]).before(#[trigger] s2[a]) by {
                        let oa = if a < i { a } else { a + 1 };
                        let ob = if b < i { b } else { b + 1 };
                        assert(s[ob].before(s[oa]));
                    }
                }
                let removed = self.entries.remove(i);
                Some(removed.height)
            },
            None => {
                assert(self@ =~= self@.remove(*id));
                None
            },
        }
    }

    /// Takes off the index every auction that is due at `current_height`,
    /// and lists them in processing order: by height, and among auctions of
    /// one height by the byte order of their ids.
    pub fn pop_due(&mut self, current_height: u64) -> (ids: Vec<AuctionId>)
        requires
            old(self).wf(),
        ensures
            final(self).wf(),
            final(self)@ == old(self)@.remove_keys(due(old(self)@, current_height)),
            final(self)@ == (SchedulerCall::PopDue { height: current_height }).apply(old(self)@),
            ids@.to_set() == due(old(self)@, current_height),
            ids@.no_duplicates(),
            in_processing_order(ids@, old(self)@),
    {
        let ghost s = self.entries@;
        let mut ids: Vec<AuctionId> = Vec::new();
        loop
            invariant
                self.entries@.len() + ids@.len() == s.len(),
                self.entries@ == s.subrange(0, self.entries@.len() as int),
                forall|k: int| 0 <= k < ids@.len() ==> #[trigger] ids@[k] == s[s.len() - 1 - k].id,
                forall|k: int| self.entries@.len() <= k < s.len() ==> (#[trigger] s[k]).height
                    <= current_height,
            ensures
                self.entries@.len() > 0 ==> s[self.entries@.len() - 1].height > current_height,
            decreases self.entries@.len(),
        {
            let n: usize = self.entries.len();
            if n == 0 || self.entries[n - 1].height > current_height {
                break ;
            }
            let last = self.entries.pop().unwrap();
            assert(self.entries@ =~= s.subrange(0, n - 1));
            ids.push(last.id);
        }
        proof {
            lemma_prefix_stays(s, self.entries@.len() as int, current_height);
            lemma_suffix_is_due(s, self.entries@.len() as int, ids@, current_height);
        }
        ids
    }
}

/// Where a well-formed list is cut so that all that is due stands behind
/// the cut, what stands before the cut is well formed and schedules exactly
/// what is not due.
proof fn lemma_prefix_stays(s: Seq<Trigger>, m: int, height: u64)
    requires
        descending(s),
        distinct_ids(s),
        0 <= m <= s.len(),
        forall|k: int| m <= k < s.len() ==> (#[trigger] s[k]).height <= height,
        m > 0 ==> s[m - 1].height > height,
    ensures
        descending(s.subrange(0, m)),
        distinct_ids(s.subrange(0, m)),
        pending_of(s.subrange(0, m)) == pending_of(s).remove_keys(due(pending_of(s), height)),
{
    let rest = s.subrange(0, m);
    let all = pending_of(s);
    let due_now = due(all, height);
    assert forall|i: int, j: int| 0 <= i < j < rest.len() implies (#[trigger] rest[j]).before(
        #[trigger] rest[i],
    ) by {
        assert(s[j].before(s[i]));
    }
    assert forall|i: int, j: int| 0 <= i < j < rest.len() implies (#[trigger] rest[i]).id != (
    #[trigger] rest[j]).id by {
        assert(s[i].id != s[j].id);
    }
    assert forall|k: int| 0 <= k < m implies (#[trigger] s[k]).height > height by {
        if k < m - 1 {
            assert(s[m - 1].before(s[k]));
        }
    }
    assert forall|id: AuctionId| #[trigger]
        pending_of(rest).contains_key(id) == all.remove_keys(due_now).contains_key(id) by {
        if pending_of(rest).contains_key(id) {
            let i = choose|i: int| entry_at(rest, id, i);
            assert(entry_at(s, id, i));
            lemma_pending_at(s, i);
        }
        if all.contains_key(id) && !due_now.contains(id) {
            let i = choose|i: int| entry_at(s, id, i);
            lemma_pending_at(s, i);
            assert(entry_at(rest, id, i));
        }
    }
    assert forall|id: AuctionId| #[trigger] pending_of(rest).contains_key(id) implies pending_of(
        rest,
    )[id] == all.remove_keys(due_now)[id] by {
        let i = choose|i: int| entry_at(rest, id, i);
        lemma_pending_at(rest, i);
        assert(entry_at(s, id, i));
        lemma_pending_at(s, i);
    }
    assert(pending_of(rest) =~= all.remove_keys(due_now));
}

/// Under the same cut, the ids behind the cut, read from the end, are the
/// due auctions, each once, in processing order.
proof fn lemma_suffix_is_due(s: Seq<Trigger>, m: int, ids: Seq<AuctionId>, height: u64)
    requires
        descending(s),
        distinct_ids(s),
        0 <= m <= s.len(),
        forall|k: int| m <= k < s.len() ==> (#[trigger] s[k]).height <= height,
        m > 0 ==> s[m - 1].height > height,
        ids.len() == s.len() - m,
        forall|k: int| 0 <= k < ids.len() ==> #[trigger] ids[k] == s[s.len() - 1 - k].id,
    ensures
        ids.to_set() == due(pending_of(s), height),
        ids.no_duplicates(),
        in_processing_order(ids, pending_of(s)),
{
    let all = pending_of(s);
    let due_now = due(all, height);
    let n = s.len() as int;
    assert forall|k: int| 0 <= k < m implies (#[trigger] s[k]).height > height by {
        if k < m - 1 {
            assert(s[m - 1].before(s[k]));
        }
    }
    assert forall|id: AuctionId| #[trigger] ids.to_set().contains(id) == due_now.contains(id) by {
        if ids.contains(id) {
            let k = choose|k: int| 0 <= k < ids.len() && ids[k] == id;
            lemma_pending_at(s, n - 1 - k);
        }
        if due_now.contains(id) {
            let i = choose|i: int| entry_at(s, id, i);
            lemma_pending_at(s, i);
            assert(ids[n - 1 - i] == id);
        }
    }
    assert(ids.to_set() =~= due_now);
    assert forall|a: int, b: int| 0 <= a < b < ids.len() implies ids[a] != ids[b] by {
        assert(s[n - 1 - b].id != s[n - 1 - a].id);
    }
    assert forall|a: int, b: int| 0 <= a < b < ids.len() implies (Trigger {
        height: all[#[trigger] ids[a]],
        id: ids[a],
    }).before(Trigger { height: all[#[trigger] ids[b]], id: ids[b] }) by {
        let ia = n - 1 - a;
        let ib = n - 1 - b;
        lemma_pending_at(s, ia);
        lemma_pending_at(s, ib);
        assert(s[ia].before(s[ib]));
    }
}

/// One call on the scheduler.
pub enum SchedulerCall {
    /// `schedule(height, id)`
    Schedule { height: u64, id: AuctionId },
    /// `cancel(id)`
    Cancel { id: AuctionId },
    /// `pop_due(height)`
    PopDue { height: u64 },
}

impl SchedulerCall {
    /// What the call makes of the index.
    pub open spec fn apply(self, pending: Map<AuctionId, u64>) -> Map<AuctionId, u64> {
        match self {
            SchedulerCall::Schedule { height, id } => pending.insert(id, height),
            SchedulerCall::Cancel { id } => pending.remove(id),
            SchedulerCall::PopDue { height } => pending.remove_keys(due(pending, height)),
        }
    }

    /// Whether the call takes away an entry of `id` at `height`, or puts
    /// another in its place.
    pub open spec fn displaces(self, id: AuctionId, height: u64) -> bool {
        match self {
            SchedulerCall::Schedule { height: _, id: other } => other == id,
            SchedulerCall::Cancel { id: other } => other == id,
            SchedulerCall::PopDue { height: popped } => height <= popped,
        }
    }
}

/// The index after a sequence of calls on an empty scheduler.
pub open spec fn pending_after(calls: Seq<SchedulerCall>) -> Map<AuctionId, u64>
    decreases calls.len(),
{
    if calls.len() == 0 {
        Map::empty()
    } else {
        calls.last().apply(pending_after(calls.drop_last()))
    }
}

/// Whether the call at place `at` scheduled `id` at `height` and no later
/// call has cancelled, popped or rescheduled it.
pub open spec fn stands_since(calls: Seq<SchedulerCall>, id: AuctionId, height: u64, at: int)
    -> bool {
    &&& 0 <= at < calls.len()
    &&& calls[at] == SchedulerCall::Schedule { height, id }
    &&& forall|later: int| at < later < calls.len() ==> !(#[trigger] calls[later]).displaces(id, height)
}

/// Scheduler correctness: after any sequence of calls, the index holds
/// `id` at `height` exactly when the most recent `schedule` of `id` was at
/// `height` and `id` has been neither cancelled nor popped since.
pub proof fn lemma_pending_after(calls: Seq<SchedulerCall>, id: AuctionId, height: u64)
    ensures
        (pending_after(calls).contains_key(id) && pending_after(calls)[id] == height) <==> exists|
            at: int,
        |
            stands_since(calls, id, height, at),
    decreases calls.len(),
{
    if calls.len() > 0 {
        let before = calls.drop_last();
        let last = calls.last();
        let n = calls.len() as int;
        lemma_pending_after(before, id, height);
        if pending_after(calls).contains_key(id) && pending_after(calls)[id] == height {
            if last == (SchedulerCall::Schedule { height, id }) {
                assert(stands_since(calls, id, height, n - 1));
            } else {
                assert(!last.displaces(id, height));
                assert(pending_after(before).contains_key(id) && pending_after(before)[id]
                    == height);
                let at = choose|at: int| stands_since(before, id, height, at);
                assert forall|later: int| at < later < n implies !(#[trigger] calls[later]).displaces(
                    id,
                    height,
                ) by {
                    if later < n - 1 {
                        assert(before[later] == calls[later]);
                    }
                }
                assert(stands_since(calls, id, height, at));
            }
        }
        if exists|at: int| stands_since(calls, id, height, at) {
            let at = choose|at: int| stands_since(calls, id, height, at);
            if at < n - 1 {
                assert(!calls[n - 1].displaces(id, height));
                assert forall|later: int| at < later < n - 1 implies !(
                #[trigger] before[later]).displaces(id, height) by {
                    assert(before[later] == calls[later]);
                }
                assert(stands_since(before, id, height, at));
            }
        }
    }
}

/// What `pop_due` hands out after any sequence of calls: exactly the ids
/// whose most recent `schedule` was at `current_height` or before and that
/// have been neither cancelled nor popped since.
pub proof fn lemma_pop_due_after(calls: Seq<SchedulerCall>, current_height: u64, id: AuctionId)
    ensures
        due(pending_after(calls), current_height).contains(id) <==> exists|height: u64, at: int|
            height <= current_height && stands_since(calls, id, height, at),
{
    if due(pending_after(calls), current_height).contains(id) {
        let height = pending_after(calls)[id];
        lemma_pending_after(calls, id, height);
        let at = choose|at: int| stands_since(calls, id, height, at);
        assert(height <= current_height && stands_since(calls, id, height, at));
    }
    if exists|height: u64, at: int| height <= current_height && stands_since(calls, id, height, at) {
        let (height, at) = choose|height: u64, at: int|
            height <= current_height && stands_since(calls, id, height, at);
        lemma_pending_after(calls, id, height);
    }
}

} // verus!
