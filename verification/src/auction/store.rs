//! The auction record store: the description and the state of every
//! auction, by auction id.

use vstd::prelude::*;
use vstd::seq_lib::seq_to_set_is_finite;
use crate::auction::id::AuctionId;
use crate::auction::state::{DutchAuction, DutchAuctionState};
use crate::bytes32::{lemma_precedes_asymmetric, lemma_precedes_total, lemma_precedes_transitive};

verus! {

/// One record of the store.
#[derive(Clone, Copy, Debug, PartialEq, Eq)]
pub struct AuctionRecord {
    pub id: AuctionId,
    pub auction: DutchAuction,
}

/// The records stand in the byte order of their ids.
pub open spec fn ascending(s: Seq<AuctionRecord>) -> bool {
    forall|i: int, j: int| 0 <= i < j < s.len() ==> (#[trigger] s[i]).id.before((#[trigger] s[j]).id)
}

/// Whether `s` has the record of `id` at place `i`.
pub open spec fn record_at(s: Seq<AuctionRecord>, id: AuctionId, i: int) -> bool {
    0 <= i < s.len() && s[i].id == id
}

/// The auctions that a list of records holds, by id.
pub open spec fn records_of(s: Seq<AuctionRecord>) -> Map<AuctionId, DutchAuction> {
    Map::new(
        |id: AuctionId| exists|i: int| record_at(s, id, i),
        |id: AuctionId| s[choose|i: int| record_at(s, id, i)].auction,
    )
}

proof fn lemma_record_at(s: Seq<AuctionRecord>, i: int)
    requires
        ascending(s),
        0 <= i < s.len(),
    ensures
        records_of(s).contains_key(s[i].id),
        records_of(s)[s[i].id] == s[i].auction,
{
    let id = s[i].id;
    assert(record_at(s, id, i));
    let j = choose|j: int| record_at(s, id, j);
    if j < i {
        assert(s[j].id.before(s[i].id));
        lemma_precedes_asymmetric(s[j].id.inner@, s[i].id.inner@);
    } else if i < j {
        assert(s[i].id.before(s[j].id));
        lemma_precedes_asymmetric(s[i].id.inner@, s[j].id.inner@);
    }
}

proof fn lemma_records_count(s: Seq<AuctionRecord>)
    requires
        ascending(s),
    ensures
        records_of(s).dom().finite(),
        records_of(s).dom().len() == s.len(),
{
    let ids = Seq::new(s.len(), |i: int| s[i].id);
    assert forall|i: int, j: int| 0 <= i < ids.len() && 0 <= j < ids.len() && i != j implies ids[i]
        != ids[j] by {
        if i < j {
            assert(s[i].id.before(s[j].id));
            lemma_precedes_asymmetric(s[i].id.inner@, s[j].id.inner@);
        } else {
            assert(s[j].id.before(s[i].id));
            lemma_precedes_asymmetric(s[j].id.inner@, s[i].id.inner@);
        }
    }
    assert forall|id: AuctionId| #[trigger] ids.to_set().contains(id) == records_of(
        s,
    ).dom().contains(id) by {
        if ids.contains(id) {
            let i = choose|i: int| 0 <= i < ids.len() && ids[i] == id;
            assert(record_at(s, id, i));
        }
        if records_of(s).contains_key(id) {
            let i = choose|i: int| record_at(s, id, i);
            assert(ids[i] == id);
        }
    }
    assert(ids.to_set() =~= records_of(s).dom());
    seq_to_set_is_finite(ids);
    ids.unique_seq_to_set();
}

proof fn lemma_records_insert(s: Seq<AuctionRecord>, at: int, r: AuctionRecord)
    requires
        ascending(s),
        0 <= at <= s.len(),
        forall|i: int| 0 <= i < at ==> (#[trigger] s[i]).id.before(r.id),
        forall|i: int| at <= i < s.len() ==> r.id.before((#[trigger] s[i]).id),
    ensures
        ascending(s.insert(at, r)),
        !records_of(s).contains_key(r.id),
        records_of(s.insert(at, r)) == records_of(s).insert(r.id, r.auction),
{
    let s2 = s.insert(at, r);
    assert forall|i: int, j: int| 0 <= i < j < s2.len() implies (#[trigger] s2[i]).id.before(
        (#[trigger] s2[j]).id,
    ) by {
        let oi = if i < at { i } else { i - 1 };
        let oj = if j < at { j } else { j - 1 };
        if i != at && j != at {
            assert(s[oi].id.before(s[oj].id));
        }
    }
    if records_of(s).contains_key(r.id) {
        let i = choose|i: int| record_at(s, r.id, i);
        if i < at {
            lemma_precedes_asymmetric(s[i].id.inner@, r.id.inner@);
        } else {
            lemma_precedes_asymmetric(r.id.inner@, s[i].id.inner@);
        }
    }
    assert forall|id: AuctionId| #[trigger]
        records_of(s2).contains_key(id) == records_of(s).insert(r.id, r.auction).contains_key(
            id,
        ) by {
        if records_of(s2).contains_key(id) {
            let i = choose|i: int| record_at(s2, id, i);
            if i != at {
                let oi = if i < at { i } else { i - 1 };
                assert(record_at(s, id, oi));
            }
        }
        if records_of(s).contains_key(id) {
            let i = choose|i: int| record_at(s, id, i);
            let ni = if i < at { i } else { i + 1 };
            assert(record_at(s2, id, ni));
        }
        if id == r.id {
            assert(record_at(s2, id, at));
        }
    }
    assert forall|id: AuctionId| #[trigger] records_of(s2).contains_key(id) implies records_of(
        s2,
    )[id] == records_of(s).insert(r.id, r.auction)[id] by {
        let i = choose|i: int| record_at(s2, id, i);
        lemma_record_at(s2, i);
        if i != at {
            let oi = if i < at { i } else { i - 1 };
            lemma_record_at(s, oi);
        }
    }
    assert(records_of(s2) =~= records_of(s).insert(r.id, r.auction));
}

proof fn lemma_records_update(s: Seq<AuctionRecord>, at: int, r: AuctionRecord)
    requires
        ascending(s),
        0 <= at < s.len(),
        s[at].id == r.id,
    ensures
        ascending(s.update(at, r)),
        records_of(s.update(at, r)) == records_of(s).insert(r.id, r.auction),
{
    let s2 = s.update(at, r);
    assert forall|i: int, j: int| 0 <= i < j < s2.len() implies (#[trigger] s2[i]).id.before(
        (#[trigger] s2[j]).id,
    ) by {
        assert(s[i].id.before(s[j].id));
    }
    assert forall|id: AuctionId| #[trigger]
        records_of(s2).contains_key(id) == records_of(s).insert(r.id, r.auction).contains_key(
            id,
        ) by {
        if records_of(s2).contains_key(id) {
            let i = choose|i: int| record_at(s2, id, i);
            assert(record_at(s, id, i));
        }
        if records_of(s).contains_key(id) {
            let i = choose|i: int| record_at(s, id, i);
            assert(record_at(s2, id, i));
        }
        if id == r.id {
            assert(record_at(s2, id, at));
        }
    }
    assert forall|id: AuctionId| #[trigger] records_of(s2).contains_key(id) implies records_of(
        s2,
    )[id] == records_of(s).insert(r.id, r.auction)[id] by {
        let i = choose|i: int| record_at(s2, id, i);
        lemma_record_at(s2, i);
        lemma_record_at(s, i);
    }
    assert(records_of(s2) =~= records_of(s).insert(r.id, r.auction));
}

/// Every auction that the chain knows, by id.
pub struct AuctionStore {
    /// The records, in the byte order of their ids.
    records: Vec<AuctionRecord>,
}

impl View for AuctionStore {
    type V = Map<AuctionId, DutchAuction>;

    /// The auctions held, by id.
    closed spec fn view(&self) -> Map<AuctionId, DutchAuction> {
        records_of(self.records@)
    }
}

impl AuctionStore {
    /// The invariant of the store.
    pub closed spec fn wf(&self) -> bool {
        ascending(self.records@)
    }

    /// A store that holds no auction.
    pub fn new() -> (r: AuctionStore)
        ensures
            r.wf(),
            r@ == Map::<AuctionId, DutchAuction>::empty(),
    {
        let r = AuctionStore { records: Vec::new() };
        assert(r@ =~= Map::<AuctionId, DutchAuction>::empty());
        r
    }

    /// The number of auctions held.
    pub fn len(&self) -> (r: usize)
        requires
            self.wf(),
        ensures
            self@.dom().finite(),
            r == self@.dom().len(),
    {
        proof {
            lemma_records_count(self.records@);
        }
        self.records.len()
    }

    /// The number of records whose id comes before `id`. They stand first.
    fn rank(&self, id: &AuctionId) -> (r: usize)
        requires
            self.wf(),
        ensures
            r <= self.records@.len(),
            forall|i: int| 0 <= i < r ==> (#[trigger] self.records@[i]).id.before(*id),
            forall|i: int| r <= i < self.records@.len() ==> !(#[trigger] self.records@[i]).id.before(*id),
    {
        let mut lo: usize = 0;
        let mut hi: usize = self.records.len();
        while lo < hi
            invariant
                self.wf(),
                lo <= hi <= self.records@.len(),
                forall|i: int| 0 <= i < lo ==> (#[trigger] self.records@[i]).id.before(*id),
                forall|i: int| hi <= i < self.records@.len() ==> !(#[trigger] self.records@[i]).id.before(*id),
            decreases hi - lo,
        {
            let mid: usize = lo + (hi - lo) / 2;
            if self.records[mid].id.precedes(id) {
                proof {
                    let s = self.records@;
                    assert forall|i: int| 0 <= i < mid + 1 implies (#[trigger] s[i]).id.before(
                        *id,
                    ) by {
                        if i < mid {
                            assert(s[i].id.before(s[mid as int].id));
                            lemma_precedes_transitive(
                                s[i].id.inner@,
                                s[mid as int].id.inner@,
                                id.inner@,
                            );
                        }
                    }
                }
                lo = mid + 1;
            } else {
                proof {
                    let s = self.records@;
                    assert forall|i: int| mid <= i < s.len() implies !(#[trigger] s[i]).id.before(
                        *id,
                    ) by {
                        if mid < i && s[i].id.before(*id) {
                            assert(s[mid as int].id.before(s[i].id));
                            lemma_precedes_transitive(
                                s[mid as int].id.inner@,
                                s[i].id.inner@,
                                id.inner@,
                            );
                        }
                    }
                }
                hi = mid;
            }
        }
        lo
    }

    /// Where the record of `id` stands, or where it would be put.
    fn find(&self, id: &AuctionId) -> (r: Result<usize, usize>)
        requires
            self.wf(),
        ensures
            r is Ok <==> self@.contains_key(*id),
            r matches Ok(i) ==> i < self.records@.len() && self.records@[i as int].id == *id
                && self@[*id] == self.records@[i as int].auction,
            r matches Err(at) ==> {
                &&& at <= self.records@.len()
                &&& forall|i: int| 0 <= i < at ==> (#[trigger] self.records@[i]).id.before(*id)
                &&& forall|i: int|
                    at <= i < self.records@.len() ==> id.before((#[trigger] self.records@[i]).id)
            },
    {
        let at: usize = self.rank(id);
        let ghost s = self.records@;
        if at < self.records.len() && self.records[at].id.equals(id) {
            proof {
                lemma_record_at(s, at as int);
            }
            Ok(at)
        } else {
            proof {
                assert forall|i: int| at <= i < s.len() implies id.before((#[trigger] s[i]).id) by {
                    lemma_precedes_total(id.inner@, s[i].id.inner@);
                    if id.inner@ == s[i].id.inner@ {
                        assert(id.inner =~= s[i].id.inner);
                        if at < i {
                            assert(s[at as int].id.before(s[i].id));
                        }
                    }
                }
                if self@.contains_key(*id) {
                    let i = choose|i: int| record_at(s, *id, i);
                    if i < at {
                        assert(s[i].id.before(*id));
                        lemma_precedes_asymmetric(s[i].id.inner@, id.inner@);
                    } else {
                        assert(id.before(s[i].id));
                        lemma_precedes_asymmetric(id.inner@, s[i].id.inner@);
                    }
                }
            }
            Err(at)
        }
    }

    /// Whether the store holds an auction with this id.
    pub fn contains(&self, id: &AuctionId) -> (r: bool)
        requires
            self.wf(),
        ensures
            r == self@.contains_key(*id),
    {
        self.find(id).is_ok()
    }

    /// The auction with this id, if the store holds one.
    pub fn get(&self, id: &AuctionId) -> (r: Option<DutchAuction>)
        requires
            self.wf(),
        ensures
            r == (if self@.contains_key(*id) {
                Some(self@[*id])
            } else {
                None
            }),
    {
        match self.find(id) {
            Ok(i) => Some(self.records[i].auction),
            Err(_) => None,
        }
    }

    /// Puts a new auction into the store. An id that the store already
    /// holds keeps its auction, and the answer is `false`.
    pub fn insert(&mut self, id: AuctionId, auction: DutchAuction) -> (r: bool)
        requires
            old(self).wf(),
        ensures
            final(self).wf(),
            r == !old(self)@.contains_key(id),
            final(self)@ == (if r {
                old(self)@.insert(id, auction)
            } else {
                old(self)@
            }),
    {
        match self.find(&id) {
            Ok(_) => false,
            Err(at) => {
                proof {
                    lemma_records_insert(self.records@, at as int, AuctionRecord { id, auction });
                }
                self.records.insert(at, AuctionRecord { id, auction });
                true
            },
        }
    }

    /// Replaces the state of the auction with this id; its description
    /// stays as it was written. Says whether there is such an auction.
    pub fn put_state(&mut self, id: &AuctionId, state: DutchAuctionState) -> (r: bool)
        requires
            old(self).wf(),
        ensures
            final(self).wf(),
            r == old(self)@.contains_key(*id),
            final(self)@ == (if r {
                old(self)@.insert(
                    *id,
                    DutchAuction { description: old(self)@[*id].description, state },
                )
            } else {
                old(self)@
            }),
    {
        match self.find(id) {
            Ok(i) => {
                let old_record = self.records[i];
                let record = AuctionRecord {
                    id: old_record.id,
                    auction: DutchAuction { description: old_record.auction.description, state },
                };
                proof {
                    lemma_records_update(self.records@, i as int, record);
                }
                self.records[i] = record;
                true
            },
            Err(_) => false,
        }
    }

    /// The ids of all auctions held, in byte order.
    pub fn ids(&self) -> (ids: Vec<AuctionId>)
        requires
            self.wf(),
        ensures
            ids@.to_set() == self@.dom(),
            forall|i: int, j: int| 0 <= i < j < ids@.len() ==> (#[trigger] ids@[i]).before(#[trigger] ids@[j]),
    {
        let mut ids: Vec<AuctionId> = Vec::new();
        let mut i: usize = 0;
        while i < self.records.len()
            invariant
                i <= self.records@.len(),
                ids@.len() == i,
                forall|k: int| 0 <= k < i ==> #[trigger] ids@[k] == self.records@[k].id,
            decreases self.records@.len() - i,
        {
            ids.push(self.records[i].id);
            i += 1;
        }
        proof {
            let s = self.records@;
            assert forall|id: AuctionId| #[trigger] ids@.to_set().contains(id) == self@.dom().contains(
                id,
            ) by {
                if ids@.contains(id) {
                    let k = choose|k: int| 0 <= k < ids@.len() && ids@[k] == id;
                    assert(record_at(s, id, k));
                }
                if self@.contains_key(id) {
                    let k = choose|k: int| record_at(s, id, k);
                    assert(ids@[k] == id);
                }
            }
            assert(ids@.to_set() =~= self@.dom());
            assert forall|a: int, b: int| 0 <= a < b < ids@.len() implies (#[trigger] ids@[a]).before(
                #[trigger] ids@[b],
            ) by {
                assert(s[a].id.before(s[b].id));
            }
        }
        ids
    }
}

} // verus!
