use vstd::prelude::*;

verus! {

/// Number of times the index's height is polled before giving up.
pub const SYNC_ATTEMPTS: u32 = 20;

/// Delay between two polls, in milliseconds.
pub const SYNC_INTERVAL_MS: u64 = 25;

/// What the caller does after a poll of the index's height.
#[derive(Clone, Copy, Debug, PartialEq, Eq, Structural)]
pub enum SyncAction {
    /// The index has caught up with the node.
    Done,
    /// Wait `SYNC_INTERVAL_MS` and poll again.
    Retry,
    /// The attempt budget is spent without the index catching up.
    TimedOut,
}

/// Waits for the index to process as many blocks as the node holds.
#[derive(Clone, Copy, Debug, PartialEq, Eq, Structural)]
pub struct IndexSyncGate {
    /// Number of blocks the index must report.
    pub target: u64,
    /// Polls made so far.
    pub attempts: u32,
    /// No polling at all: the caller accepts a stale index.
    pub skip: bool,
}

/// State and action that follow a poll answered with `height`.
pub open spec fn gate_step(g: IndexSyncGate, height: u64) -> (IndexSyncGate, SyncAction) {
    let next = IndexSyncGate { attempts: (g.attempts + 1) as u32, ..g };
    if height >= g.target {
        (next, SyncAction::Done)
    } else if next.attempts >= SYNC_ATTEMPTS {
        (next, SyncAction::TimedOut)
    } else {
        (next, SyncAction::Retry)
    }
}

/// Feeds the polled heights from the `k`-th on until an action other than
/// `Retry`, or until they run out.
pub open spec fn feed_from(g: IndexSyncGate, heights: Seq<u64>, k: int) -> (IndexSyncGate, SyncAction)
    decreases heights.len() - k,
{
    if k < 0 || k >= heights.len() {
        (g, SyncAction::Retry)
    } else {
        let (next, action) = gate_step(g, heights[k]);
        if action == SyncAction::Retry {
            feed_from(next, heights, k + 1)
        } else {
            (next, action)
        }
    }
}

/// First index from `k` below `n` whose height reaches `target`, or `n`.
pub open spec fn first_reaching(heights: Seq<u64>, target: u64, k: int, n: int) -> int
    decreases n - k,
{
    if k >= n {
        n
    } else if heights[k] >= target {
        k
    } else {
        first_reaching(heights, target, k + 1, n)
    }
}

impl IndexSyncGate {
    /// A gate for a node holding `node_block_count` blocks past the genesis
    /// block: the index reports blocks processed, one more than the tip height.
    pub fn new(node_block_count: u64, skip: bool) -> (r: IndexSyncGate)
        requires
            node_block_count < u64::MAX,
        ensures
            r == (IndexSyncGate { target: (node_block_count + 1) as u64, attempts: 0, skip }),
    {
        IndexSyncGate { target: node_block_count + 1, attempts: 0, skip }
    }

    /// Whether the caller polls the index at all before using it.
    pub fn must_poll(&self) -> (r: bool)
        ensures
            r == !self.skip,
    {
        !self.skip
    }

    /// Records a poll whose answer is `height` and says what to do next.
    pub fn record_poll(&mut self, height: u64) -> (r: SyncAction)
        requires
            old(self).attempts < SYNC_ATTEMPTS,
        ensures
            (*final(self), r) == gate_step(*old(self), height),
    {
        self.attempts = self.attempts + 1;
        if height >= self.target {
            SyncAction::Done
        } else if self.attempts >= SYNC_ATTEMPTS {
            SyncAction::TimedOut
        } else {
            SyncAction::Retry
        }
    }
}

proof fn lemma_feed_from(g: IndexSyncGate, heights: Seq<u64>, k: int)
    requires
        0 <= k < SYNC_ATTEMPTS,
        g.attempts == k,
        heights.len() >= SYNC_ATTEMPTS,
    ensures
        ({
            let f = first_reaching(heights, g.target, k, SYNC_ATTEMPTS as int);
            feed_from(g, heights, k) == if f < SYNC_ATTEMPTS {
                (IndexSyncGate { attempts: (f + 1) as u32, ..g }, SyncAction::Done)
            } else {
                (IndexSyncGate { attempts: SYNC_ATTEMPTS, ..g }, SyncAction::TimedOut)
            }
        }),
    decreases SYNC_ATTEMPTS - k,
{
    let (next, action) = gate_step(g, heights[k]);
    if action == SyncAction::Retry {
        lemma_feed_from(next, heights, k + 1);
    } else if heights[k] < g.target {
        assert(first_reaching(heights, g.target, k + 1, SYNC_ATTEMPTS as int) == SYNC_ATTEMPTS);
    }
}

/// A fresh gate, fed the heights the index reports at each poll, finishes at
/// the first poll among the first `SYNC_ATTEMPTS` that reaches the target,
/// after exactly that many polls; when none does, it times out after exactly
/// `SYNC_ATTEMPTS` polls.
pub proof fn lemma_sync_attempt_budget(target: u64, heights: Seq<u64>)
    requires
        heights.len() >= SYNC_ATTEMPTS,
    ensures
        ({
            let g = IndexSyncGate { target, attempts: 0, skip: false };
            let f = first_reaching(heights, target, 0, SYNC_ATTEMPTS as int);
            feed_from(g, heights, 0) == if f < SYNC_ATTEMPTS {
                (IndexSyncGate { target, attempts: (f + 1) as u32, skip: false }, SyncAction::Done)
            } else {
                (
                    IndexSyncGate { target, attempts: SYNC_ATTEMPTS, skip: false },
                    SyncAction::TimedOut,
                )
            }
        }),
{
    lemma_feed_from(IndexSyncGate { target, attempts: 0, skip: false }, heights, 0);
}

} // verus!
