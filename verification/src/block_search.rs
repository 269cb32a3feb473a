//! Finding a block near a point in time, and scanning block ranges for events, backwards.
//!
//! Both are driven from outside: the caller fetches the block or the events that the
//! machine asks for and hands back what it found.
use vstd::prelude::*;

verus! {

/// Size of the steps of the backwards linear search, in blocks.
pub const LINEAR_SEARCH_CHUNK_SIZE: u64 = 100000;

/// Nanoseconds per second.
pub const NANOS_PER_SEC: u128 = 1_000_000_000;

/// The phase of a search for the block whose timestamp is closest below a target time.
#[derive(Clone, Copy, Debug, PartialEq, Eq, Structural)]
pub enum SearchPhase {
    /// Stepping backwards from the latest block until a block is at or before the target;
    /// the last step lands on block 0.
    Linear { probe: u64 },
    /// Bisecting: `low` is at or before the target, blocks above `high` are after it.
    Binary { low: u64, high: u64 },
    /// The search is over, with this block number.
    Done { block: u64 },
}

/// A search for the block whose timestamp is closest below a target time.
#[derive(Clone, Copy, Debug, PartialEq, Eq, Structural)]
pub struct BlockSearch {
    /// Number of the latest block.
    pub latest_block_number: u64,
    /// Target time, in nanoseconds since the Unix epoch.
    pub target_nanos: u128,
    /// Tolerance: bisection may stop at a block within this many nanoseconds before the target.
    pub approx_nanos: Option<u128>,
    /// Where the search stands.
    pub phase: SearchPhase,
}

/// The block that bisection probes next: the upper middle.
pub open spec fn midpoint(low: u64, high: u64) -> u64 {
    ((low as nat + high as nat + 1) / 2) as u64
}

/// The block timestamp, in seconds, is at or before the target time.
pub open spec fn at_or_before(block_timestamp: u64, target_nanos: u128) -> bool {
    block_timestamp as nat * NANOS_PER_SEC as nat <= target_nanos as nat
}

/// The block timestamp is within the tolerance before the target time (where the target
/// minus the tolerance is negative, the Unix epoch stands for it).
pub open spec fn close_enough(block_timestamp: u64, target_nanos: u128, approx_nanos: u128) -> bool {
    block_timestamp as nat * NANOS_PER_SEC as nat >= if target_nanos >= approx_nanos {
        (target_nanos - approx_nanos) as nat
    } else {
        0
    }
}

/// Bisection between `low` and `high`: done at `low` when the range is empty.
pub open spec fn bisect(low: u64, high: u64) -> SearchPhase {
    if low < high {
        SearchPhase::Binary { low, high }
    } else {
        SearchPhase::Done { block: low }
    }
}

impl BlockSearch {
    /// The search is consistent: the linear probe is positive and at most the latest block;
    /// the bisection range is non-empty and within the latest block; the result is at most
    /// the latest block.
    pub open spec fn wf(self) -> bool {
        &&& self.latest_block_number as nat + LINEAR_SEARCH_CHUNK_SIZE as nat <= u64::MAX as nat
        &&& match self.phase {
            SearchPhase::Linear { probe } => probe <= self.latest_block_number,
            SearchPhase::Binary { low, high } => low < high <= self.latest_block_number,
            SearchPhase::Done { block } => block <= self.latest_block_number,
        }
    }

    /// The block whose timestamp the search needs next, if it is not over.
    pub open spec fn wanted(self) -> Option<u64> {
        match self.phase {
            SearchPhase::Linear { probe } => Some(probe),
            SearchPhase::Binary { low, high } => Some(midpoint(low, high)),
            SearchPhase::Done { .. } => None,
        }
    }

    /// The search after learning that the wanted block has timestamp `ts` (seconds).
    pub open spec fn after(self, ts: u64) -> BlockSearch {
        let phase = match self.phase {
            SearchPhase::Linear { probe } => if at_or_before(ts, self.target_nanos) {
                let high = if probe as nat + LINEAR_SEARCH_CHUNK_SIZE as nat
                    <= self.latest_block_number as nat {
                    (probe + LINEAR_SEARCH_CHUNK_SIZE) as u64
                } else {
                    self.latest_block_number
                };
                bisect(probe, high)
            } else {
                if probe == 0 {
                    SearchPhase::Done { block: 0 }
                } else if probe >= LINEAR_SEARCH_CHUNK_SIZE {
                    SearchPhase::Linear { probe: (probe - LINEAR_SEARCH_CHUNK_SIZE) as u64 }
                } else {
                    SearchPhase::Linear { probe: 0 }
                }
            },
            SearchPhase::Binary { low, high } => {
                let mid = midpoint(low, high);
                if at_or_before(ts, self.target_nanos) {
                    match self.approx_nanos {
                        Some(a) => if close_enough(ts, self.target_nanos, a) {
                            SearchPhase::Done { block: mid }
                        } else {
                            bisect(mid, high)
                        },
                        None => bisect(mid, high),
                    }
                } else {
                    bisect(low, (mid - 1) as u64)
                }
            },
            SearchPhase::Done { block } => SearchPhase::Done { block },
        };
        BlockSearch { phase, ..self }
    }

    /// How far the search is from its end: it shrinks at every step until the search is over.
    pub open spec fn remaining(self) -> nat {
        match self.phase {
            SearchPhase::Linear { probe } => probe as nat + self.latest_block_number as nat + 2,
            SearchPhase::Binary { low, high } => (high - low) as nat + 1,
            SearchPhase::Done { .. } => 0,
        }
    }

    /// Starts a search for the block closest below `target_nanos`, from the latest block.
    pub fn new(latest_block_number: u64, target_nanos: u128, approx_nanos: Option<u128>) -> (r:
        BlockSearch)
        requires
            latest_block_number as nat + LINEAR_SEARCH_CHUNK_SIZE as nat <= u64::MAX as nat,
        ensures
            r.wf(),
            r == (BlockSearch {
                latest_block_number,
                target_nanos,
                approx_nanos,
                phase: SearchPhase::Linear { probe: latest_block_number },
            }),
    {
        BlockSearch {
            latest_block_number,
            target_nanos,
            approx_nanos,
            phase: SearchPhase::Linear { probe: latest_block_number },
        }
    }

    /// The block whose timestamp the search needs next, or `None` when it is over.
    pub fn next_block(&self) -> (r: Option<u64>)
        requires
            self.wf(),
        ensures
            r == self.wanted(),
    {
        match self.phase {
            SearchPhase::Linear { probe } => Some(probe),
            SearchPhase::Binary { low, high } => Some(low + (high - low + 1) / 2),
            SearchPhase::Done { .. } => None,
        }
    }

    /// The block found, once the search is over.
    pub fn result(&self) -> (r: Option<u64>)
        ensures
            r == match self.phase {
                SearchPhase::Done { block } => Some(block),
                _ => None,
            },
    {
        match self.phase {
            SearchPhase::Done { block } => Some(block),
            _ => None,
        }
    }

    /// Hands the search the timestamp, in seconds, of the block it asked for.
    pub fn observe(&mut self, block_timestamp: u64)
        requires
            old(self).wf(),
        ensures
            *final(self) == old(self).after(block_timestamp),
            final(self).wf(),
            old(self).wanted() is Some ==> final(self).remaining() < old(self).remaining(),
    {
        let ts = block_timestamp as u128 * NANOS_PER_SEC;
        match self.phase {
            SearchPhase::Linear { probe } => {
                if ts <= self.target_nanos {
                    let high = if probe + LINEAR_SEARCH_CHUNK_SIZE <= self.latest_block_number {
                        probe + LINEAR_SEARCH_CHUNK_SIZE
                    } else {
                        self.latest_block_number
                    };
                    if probe < high {
                        self.phase = SearchPhase::Binary { low: probe, high };
                    } else {
                        self.phase = SearchPhase::Done { block: probe };
                    }
                } else {
                    if probe == 0 {
                        self.phase = SearchPhase::Done { block: 0 };
                    } else {
                        let next = probe.saturating_sub(LINEAR_SEARCH_CHUNK_SIZE);
                        self.phase = SearchPhase::Linear { probe: next };
                    }
                }
            },
            SearchPhase::Binary { low, high } => {
                let mid = low + (high - low + 1) / 2;
                let (new_low, new_high) = if ts <= self.target_nanos {
                    (mid, high)
                } else {
                    (low, mid - 1)
                };
                let close = match self.approx_nanos {
                    Some(a) => ts <= self.target_nanos && ts >= self.target_nanos.saturating_sub(a),
                    None => false,
                };
                if close {
                    self.phase = SearchPhase::Done { block: mid };
                } else if new_low < new_high {
                    self.phase = SearchPhase::Binary { low: new_low, high: new_high };
                } else {
                    self.phase = SearchPhase::Done { block: new_low };
                }
            },
            SearchPhase::Done { .. } => {},
        }
    }
}

/// Block timestamps never decrease with the block number.
pub open spec fn nondecreasing_timestamps(ts: Seq<u64>) -> bool {
    forall|i: int, j: int| 0 <= i <= j < ts.len() ==> ts[i] <= ts[j]
}

/// Every block from `from` to `to` has a timestamp after the target.
pub open spec fn all_after(ts: Seq<u64>, target_nanos: u128, from: int, to: int) -> bool {
    forall|n: int| from <= n <= to ==> !at_or_before(#[trigger] ts[n], target_nanos)
}

impl BlockSearch {
    /// What the search has learnt holds of the block timestamps `ts` (indexed by block
    /// number, up to the latest block): while stepping back, the blocks from one step above
    /// the probe on are after the target; while bisecting, `low` is at or before the target
    /// and the blocks above `high` are after it. Once done, the block found is the latest
    /// block at or before the target (or, with a tolerance, one within it), or block 0 where
    /// every block is after the target.
    pub open spec fn consistent(self, ts: Seq<u64>) -> bool {
        let latest = self.latest_block_number as int;
        let target = self.target_nanos;
        &&& ts.len() == latest + 1
        &&& match self.phase {
            SearchPhase::Linear { probe } => probe < latest ==> all_after(
                ts,
                target,
                if probe + LINEAR_SEARCH_CHUNK_SIZE <= latest {
                    probe + LINEAR_SEARCH_CHUNK_SIZE
                } else {
                    latest
                },
                latest,
            ),
            SearchPhase::Binary { low, high } => at_or_before(ts[low as int], target) && all_after(
                ts,
                target,
                high + 1,
                latest,
            ),
            SearchPhase::Done { block } => {
                ||| at_or_before(ts[block as int], target) && (all_after(
                    ts,
                    target,
                    block + 1,
                    latest,
                ) || (self.approx_nanos is Some && close_enough(
                    ts[block as int],
                    target,
                    self.approx_nanos->Some_0,
                )))
                ||| block == 0 && all_after(ts, target, 0, latest)
            },
        }
    }
}

/// A new search is consistent with any timestamps of its blocks.
pub proof fn lemma_search_starts_consistent(s: BlockSearch, ts: Seq<u64>)
    requires
        s.phase == (SearchPhase::Linear { probe: s.latest_block_number }),
        ts.len() == s.latest_block_number + 1,
    ensures
        s.consistent(ts),
{
}

/// Handing the search the true timestamp of the block it asks for keeps it consistent with
/// the timestamps, where they never decrease.
pub proof fn lemma_search_step(s: BlockSearch, ts: Seq<u64>)
    requires
        s.wf(),
        s.consistent(ts),
        nondecreasing_timestamps(ts),
        s.wanted() is Some,
    ensures
        s.after(ts[s.wanted()->Some_0 as int]).consistent(ts),
{
    let latest = s.latest_block_number as int;
    let target = s.target_nanos;
    let b = s.wanted()->Some_0;
    let t = s.after(ts[b as int]);
    match s.phase {
        SearchPhase::Linear { probe } => {
            if !at_or_before(ts[probe as int], target) {
                assert forall|n: int| probe <= n <= latest implies !at_or_before(
                    #[trigger] ts[n],
                    target,
                ) by {
                    assert(ts[probe as int] <= ts[n]);
                    assert(ts[probe as int] as nat * NANOS_PER_SEC as nat <= ts[n] as nat
                        * NANOS_PER_SEC as nat) by (nonlinear_arith)
                        requires
                            ts[probe as int] <= ts[n],
                    ;
                }
            }
        },
        SearchPhase::Binary { low, high } => {
            let mid = midpoint(low, high);
            if !at_or_before(ts[mid as int], target) {
                assert forall|n: int| mid <= n <= latest implies !at_or_before(
                    #[trigger] ts[n],
                    target,
                ) by {
                    if n <= high {
                        assert(ts[mid as int] <= ts[n]);
                        assert(ts[mid as int] as nat * NANOS_PER_SEC as nat <= ts[n] as nat
                            * NANOS_PER_SEC as nat) by (nonlinear_arith)
                            requires
                                ts[mid as int] <= ts[n],
                        ;
                    }
                }
            }
        },
        SearchPhase::Done { .. } => {},
    }
}

/// A finished search that was consistent with the block timestamps found the latest block
/// at or before the target, where there is one and no tolerance was given; where every
/// block is after the target, it found block 0.
pub proof fn lemma_search_result(s: BlockSearch, ts: Seq<u64>)
    requires
        s.wf(),
        s.consistent(ts),
        s.approx_nanos is None,
        s.phase is Done,
    ensures
        ({
            let block = s.phase->block as int;
            let latest = s.latest_block_number as int;
            &&& (exists|n: int| 0 <= n <= latest && at_or_before(#[trigger] ts[n], s.target_nanos))
                ==> at_or_before(ts[block], s.target_nanos) && 0 <= block <= latest && forall|m: int|
                block < m <= latest ==> !at_or_before(#[trigger] ts[m], s.target_nanos)
            &&& !(exists|n: int| 0 <= n <= latest && at_or_before(#[trigger] ts[n], s.target_nanos))
                ==> block == 0
        }),
{
    let block = s.phase->block as int;
    let latest = s.latest_block_number as int;
    if exists|n: int| 0 <= n <= latest && at_or_before(#[trigger] ts[n], s.target_nanos) {
        let n = choose|n: int| 0 <= n <= latest && at_or_before(#[trigger] ts[n], s.target_nanos);
        if block == 0 && all_after(ts, s.target_nanos, 0, latest) {
            assert(!at_or_before(ts[n], s.target_nanos));
        }
        assert(all_after(ts, s.target_nanos, block + 1, latest));
    } else {
        if at_or_before(ts[block], s.target_nanos) {
            assert(0 <= block <= latest && at_or_before(ts[block], s.target_nanos));
        }
    }
}

/// A backwards scan of the block range `[lower_limit, upper_limit]` in windows of at most
/// `chunk_size` blocks, newest window first.
#[derive(Clone, Copy, Debug, PartialEq, Eq, Structural)]
pub struct EventScan {
    /// Lowest block the scan may reach.
    pub lower_limit: u64,
    /// Number of blocks per query.
    pub chunk_size: u64,
    /// Highest block of the next window.
    pub upper: u64,
}

/// What the scan asks for next.
#[derive(Clone, Copy, Debug, PartialEq, Eq, Structural)]
pub enum ScanStep {
    /// Query events in the blocks `from..=to`.
    Query { from: u64, to: u64 },
    /// The scan reached block 0 and stops.
    ReachedGenesis,
    /// The scan went below the lower limit without being told to stop; this is an error.
    ReachedLowerLimit,
}

impl EventScan {
    /// The lowest block of the window that ends at `upper`.
    pub open spec fn window_start(self) -> u64 {
        let below = if self.upper >= self.chunk_size {
            (self.upper - self.chunk_size) as nat
        } else {
            0
        };
        if below + 1 >= self.lower_limit as nat {
            (below + 1) as u64
        } else {
            self.lower_limit
        }
    }

    /// What the scan asks for next.
    pub open spec fn step(self) -> ScanStep {
        if self.upper == 0 {
            ScanStep::ReachedGenesis
        } else if self.upper < self.lower_limit {
            ScanStep::ReachedLowerLimit
        } else {
            ScanStep::Query { from: self.window_start(), to: self.upper }
        }
    }

    /// Starts a scan of `[lower_limit, upper_limit]` in windows of `chunk_size` blocks.
    pub fn new(lower_limit: u64, upper_limit: u64, chunk_size: u64) -> (r: EventScan)
        requires
            chunk_size > 0,
        ensures
            r == (EventScan { lower_limit, chunk_size, upper: upper_limit }),
    {
        EventScan { lower_limit, chunk_size, upper: upper_limit }
    }

    /// What the scan asks for next.
    pub fn next_step(&self) -> (r: ScanStep)
        requires
            self.chunk_size > 0,
        ensures
            r == self.step(),
            r matches ScanStep::Query { from, to } ==> self.lower_limit <= from <= to
                && (to as nat) - (from as nat) < (self.chunk_size as nat),
    {
        if self.upper == 0 {
            return ScanStep::ReachedGenesis;
        }
        if self.upper < self.lower_limit {
            return ScanStep::ReachedLowerLimit;
        }
        let below = self.upper.saturating_sub(self.chunk_size) + 1;
        let from = if below >= self.lower_limit {
            below
        } else {
            self.lower_limit
        };
        ScanStep::Query { from, to: self.upper }
    }

    /// Moves the scan to the window below the one just queried.
    pub fn advance(&mut self)
        requires
            old(self).chunk_size > 0,
            old(self).step() is Query,
        ensures
            *final(self) == (EventScan {
                upper: if old(self).window_start() >= 1 {
                    (old(self).window_start() - 1) as u64
                } else {
                    0
                },
                ..*old(self)
            }),
            final(self).upper < old(self).upper,
    {
        let below = self.upper.saturating_sub(self.chunk_size) + 1;
        let from = if below >= self.lower_limit {
            below
        } else {
            self.lower_limit
        };
        self.upper = from.saturating_sub(1);
    }
}

} // verus!
