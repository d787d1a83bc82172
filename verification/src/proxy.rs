//! The book-keeping of a node proxy: the blocks seen so far, by height.
//!
//! What a block holds beyond its height and its time is of no interest
//! here, so the log is generic in it.

use vstd::prelude::*;

verus! {

/// A point in time: seconds since the epoch, and nanoseconds within the
/// second.
#[derive(Clone, Copy, Debug, PartialEq, Eq, Structural)]
pub struct Timestamp {
    pub seconds: i64,
    pub nanos: i32,
}

/// A block that the proxy has seen, with the two things it reads from the
/// block's header.
pub struct SeenBlock<B> {
    pub height: u64,
    pub time: Timestamp,
    pub block: B,
}

/// How far the node has come.
#[derive(Clone, Copy, Debug, PartialEq, Eq, Structural)]
pub struct SyncInfo {
    /// The height of the latest block.
    pub latest_block_height: u64,
    /// The time of the latest block.
    pub latest_block_time: Timestamp,
    /// Whether the node is still catching up. A node under test runs alone
    /// and never is.
    pub catching_up: bool,
}

/// The blocks stand in the order of their heights.
pub open spec fn rising<B>(s: Seq<SeenBlock<B>>) -> bool {
    forall|i: int, j: int| 0 <= i < j < s.len() ==> (#[trigger] s[i]).height < (#[trigger] s[j]).height
}

/// Whether `s` has the block of `height` at place `i`.
pub open spec fn block_at<B>(s: Seq<SeenBlock<B>>, height: u64, i: int) -> bool {
    0 <= i < s.len() && s[i].height == height
}

/// The blocks of a list, by height.
pub open spec fn blocks_of<B>(s: Seq<SeenBlock<B>>) -> Map<u64, SeenBlock<B>> {
    Map::new(
        |height: u64| exists|i: int| block_at(s, height, i),
        |height: u64| s[choose|i: int| block_at(s, height, i)],
    )
}

proof fn lemma_block_at<B>(s: Seq<SeenBlock<B>>, i: int)
    requires
        rising(s),
        0 <= i < s.len(),
    ensures
        blocks_of(s).contains_key(s[i].height),
        blocks_of(s)[s[i].height] == s[i],
{
    let height = s[i].height;
    assert(block_at(s, height, i));
    let j = choose|j: int| block_at(s, height, j);
    if j < i {
        assert(s[j].height < s[i].height);
    } else if i < j {
        assert(s[i].height < s[j].height);
    }
}

proof fn lemma_blocks_insert<B>(s: Seq<SeenBlock<B>>, at: int, b: SeenBlock<B>)
    requires
        rising(s),
        0 <= at <= s.len(),
        forall|i: int| 0 <= i < at ==> (#[trigger] s[i]).height < b.height,
        forall|i: int| at <= i < s.len() ==> b.height < (#[trigger] s[i]).height,
    ensures
        rising(s.insert(at, b)),
        blocks_of(s.insert(at, b)) == blocks_of(s).insert(b.height, b),
{
    let s2 = s.insert(at, b);
    assert forall|i: int, j: int| 0 <= i < j < s2.len() implies (#[trigger] s2[i]).height < (
    #[trigger] s2[j]).height by {
        let oi = if i < at { i } else { i - 1 };
        let oj = if j < at { j } else { j - 1 };
        if i != at && j != at {
            assert(s[oi].height < s[oj].height);
        }
    }
    assert forall|h: u64| #[trigger]
        blocks_of(s2).contains_key(h) == blocks_of(s).insert(b.height, b).contains_key(h) by {
        if blocks_of(s2).contains_key(h) {
            let i = choose|i: int| block_at(s2, h, i);
            if i != at {
                let oi = if i < at { i } else { i - 1 };
                assert(block_at(s, h, oi));
            }
        }
        if blocks_of(s).contains_key(h) {
            let i = choose|i: int| block_at(s, h, i);
            let ni = if i < at { i } else { i + 1 };
            assert(block_at(s2, h, ni));
        }
        if h == b.height {
            assert(block_at(s2, h, at));
        }
    }
    assert forall|h: u64| #[trigger] blocks_of(s2).contains_key(h) implies blocks_of(s2)[h]
        == blocks_of(s).insert(b.height, b)[h] by {
        let i = choose|i: int| block_at(s2, h, i);
        lemma_block_at(s2, i);
        if i != at {
            let oi = if i < at { i } else { i - 1 };
            lemma_block_at(s, oi);
        }
    }
    assert(blocks_of(s2) =~= blocks_of(s).insert(b.height, b));
}

/// The blocks that have been seen so far, keyed by height.
pub struct BlockLog<B> {
    /// The blocks, in the order of their heights.
    blocks: Vec<SeenBlock<B>>,
}

impl<B> View for BlockLog<B> {
    type V = Map<u64, SeenBlock<B>>;

    /// The blocks seen, by height.
    closed spec fn view(&self) -> Map<u64, SeenBlock<B>> {
        blocks_of(self.blocks@)
    }
}

impl<B> BlockLog<B> {
    /// The invariant of the log.
    pub closed spec fn wf(&self) -> bool {
        rising(self.blocks@)
    }

    /// Whether no block has been seen yet.
    pub open spec fn is_empty(&self) -> bool {
        self@ == Map::<u64, SeenBlock<B>>::empty()
    }

    /// Whether `height` is the height of the latest block seen.
    pub open spec fn is_latest(&self, height: u64) -> bool {
        &&& self@.contains_key(height)
        &&& forall|other: u64| self@.contains_key(other) ==> other <= height
    }

    /// A log without blocks.
    pub fn new() -> (r: BlockLog<B>)
        ensures
            r.wf(),
            r.is_empty(),
    {
        let r = BlockLog { blocks: Vec::new() };
        assert(r@ =~= Map::<u64, SeenBlock<B>>::empty());
        r
    }

    /// The number of blocks whose height is below `height`. They stand
    /// first.
    fn rank(&self, height: u64) -> (r: usize)
        requires
            self.wf(),
        ensures
            r <= self.blocks@.len(),
            forall|i: int| 0 <= i < r ==> (#[trigger] self.blocks@[i]).height < height,
            forall|i: int| r <= i < self.blocks@.len() ==> (#[trigger] self.blocks@[i]).height >= height,
    {
        let mut lo: usize = 0;
        let mut hi: usize = self.blocks.len();
        while lo < hi
            invariant
                self.wf(),
                lo <= hi <= self.blocks@.len(),
                forall|i: int| 0 <= i < lo ==> (#[trigger] self.blocks@[i]).height < height,
                forall|i: int|
                    hi <= i < self.blocks@.len() ==> (#[trigger] self.blocks@[i]).height >= height,
            decreases hi - lo,
        {
            let mid: usize = lo + (hi - lo) / 2;
            if self.blocks[mid].height < height {
                proof {
                    let s = self.blocks@;
                    assert forall|i: int| 0 <= i < mid + 1 implies (#[trigger] s[i]).height
                        < height by {
                        if i < mid {
                            assert(s[i].height < s[mid as int].height);
                        }
                    }
                }
                lo = mid + 1;
            } else {
                proof {
                    let s = self.blocks@;
                    assert forall|i: int| mid <= i < s.len() implies (#[trigger] s[i]).height
                        >= height by {
                        if mid < i {
                            assert(s[mid as int].height < s[i].height);
                        }
                    }
                }
                hi = mid;
            }
        }
        lo
    }

    /// Whether a block of this height has been seen.
    pub fn has_block(&self, height: u64) -> (r: bool)
        requires
            self.wf(),
        ensures
            r == self@.contains_key(height),
    {
        let at: usize = self.rank(height);
        let ghost s = self.blocks@;
        if at < self.blocks.len() && self.blocks[at].height == height {
            proof {
                lemma_block_at(s, at as int);
            }
            true
        } else {
            proof {
                if self@.contains_key(height) {
                    let i = choose|i: int| block_at(s, height, i);
                    if i > at {
                        assert(s[at as int].height < s[i].height);
                    }
                }
            }
            false
        }
    }

    /// Adds a block to the log. No two blocks have one height: the log
    /// takes a block only at a height that it has not seen.
    pub fn on_block(&mut self, height: u64, time: Timestamp, block: B)
        requires
            old(self).wf(),
            !old(self)@.contains_key(height),
        ensures
            final(self).wf(),
            final(self)@ == old(self)@.insert(height, SeenBlock { height, time, block }),
    {
        let at: usize = self.rank(height);
        proof {
            let s = self.blocks@;
            assert forall|i: int| at <= i < s.len() implies height < (#[trigger] s[i]).height by {
                if s[i].height == height {
                    lemma_block_at(s, i);
                }
            }
            lemma_blocks_insert(s, at as int, SeenBlock { height, time, block });
        }
        self.blocks.insert(at, SeenBlock { height, time, block });
    }

    /// The latest block seen, if any has been.
    pub fn latest(&self) -> (r: Option<&SeenBlock<B>>)
        requires
            self.wf(),
        ensures
            r is None <==> self.is_empty(),
            r matches Some(seen) ==> self.is_latest(seen.height) && self@[seen.height] == *seen,
    {
        let n: usize = self.blocks.len();
        if n == 0 {
            assert(self@ =~= Map::<u64, SeenBlock<B>>::empty());
            None
        } else {
            proof {
                let s = self.blocks@;
                lemma_block_at(s, n - 1);
                assert forall|other: u64| self@.contains_key(other) implies other <= s[n
                    - 1].height by {
                    let i = choose|i: int| block_at(s, other, i);
                    if i < n - 1 {
                        assert(s[i].height < s[n - 1].height);
                    }
                }
            }
            Some(&self.blocks[n - 1])
        }
    }

    /// The latest block height. There must be a block.
    pub fn latest_block_height(&self) -> (height: u64)
        requires
            self.wf(),
            !self.is_empty(),
        ensures
            self.is_latest(height),
    {
        match self.latest() {
            Some(seen) => seen.height,
            None => 0,
        }
    }

    /// The latest block timestamp. There must be a block.
    pub fn timestamp(&self) -> (time: Timestamp)
        requires
            self.wf(),
            !self.is_empty(),
        ensures
            exists|height: u64| self.is_latest(height) && self@[height].time == time,
    {
        match self.latest() {
            Some(seen) => {
                assert(self.is_latest(seen.height) && self@[seen.height].time == seen.time);
                seen.time
            },
            None => Timestamp { seconds: 0, nanos: 0 },
        }
    }

    /// The current status: the height and time of the latest block, and
    /// that the node is not catching up. There must be a block.
    pub fn get_status(&self) -> (info: SyncInfo)
        requires
            self.wf(),
            !self.is_empty(),
        ensures
            self.is_latest(info.latest_block_height),
            info.latest_block_time == self@[info.latest_block_height].time,
            !info.catching_up,
    {
        match self.latest() {
            Some(seen) => SyncInfo {
                latest_block_height: seen.height,
                latest_block_time: seen.time,
                catching_up: false,
            },
            None => SyncInfo {
                latest_block_height: 0,
                latest_block_time: Timestamp { seconds: 0, nanos: 0 },
                catching_up: false,
            },
        }
    }

    /// The block of the given height, if it has been seen. A height is not
    /// negative.
    pub fn get_block_by_height(&self, height: i64) -> (r: Option<&SeenBlock<B>>)
        requires
            self.wf(),
            height >= 0,
        ensures
            r is Some <==> self@.contains_key(height as u64),
            r matches Some(seen) ==> *seen == self@[height as u64],
    {
        let wanted: u64 = height as u64;
        let at: usize = self.rank(wanted);
        let ghost s = self.blocks@;
        if at < self.blocks.len() && self.blocks[at].height == wanted {
            proof {
                lemma_block_at(s, at as int);
            }
            Some(&self.blocks[at])
        } else {
            proof {
                if self@.contains_key(wanted) {
                    let i = choose|i: int| block_at(s, wanted, i);
                    if i > at {
                        assert(s[at as int].height < s[i].height);
                    }
                }
            }
            None
        }
    }
}

} // verus!
