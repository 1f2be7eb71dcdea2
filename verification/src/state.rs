//! The oracle as a mathematical state and the transitions between states.
//!
//! Everything the engine does is stated here as a function from state to
//! state; the executable engine is proved to follow these functions.

use crate::asset::AssetPairId;
use crate::bucket::{window_average, window_last, window_push, BUCKET_SIZE};
use crate::types::{
    combine, lemma_combine_from_zero, lemma_combine_price_between, PriceEntry, PriceInfo,
};
use vstd::prelude::*;

verus! {

/// The number of a block.
pub type BlockNumber = u64;

/// The finest resolution: one window per tracked pair, in the order in
/// which the pairs were registered.
pub type TenWindows = Seq<(AssetPairId, Seq<PriceInfo>)>;

/// A coarser resolution: the windows of the pairs that have one.
pub type Windows = Map<AssetPairId, Seq<PriceInfo>>;

/// Whether `pair` has a window in `ten`.
pub open spec fn is_tracked(ten: TenWindows, pair: AssetPairId) -> bool {
    exists|i: int| 0 <= i < ten.len() && (#[trigger] ten[i]).0 == pair
}

/// A position of `pair` in `ten`; the only one where no pair occurs twice.
pub open spec fn slot_of(ten: TenWindows, pair: AssetPairId) -> int {
    choose|i: int| 0 <= i < ten.len() && (#[trigger] ten[i]).0 == pair
}

/// The window of `pair` in `windows`, or the empty window if it has none
/// yet.
pub open spec fn window_or_empty(windows: Windows, pair: AssetPairId) -> Seq<PriceInfo> {
    if windows.contains_key(pair) {
        windows[pair]
    } else {
        Seq::empty()
    }
}

/// The entry that `pair` has accumulated in this block, or the zero entry
/// if it has not traded yet.
pub open spec fn entry_or_zero(
    accumulator: Map<AssetPairId, PriceEntry>,
    pair: AssetPairId,
) -> PriceEntry {
    if accumulator.contains_key(pair) {
        accumulator[pair]
    } else {
        PriceEntry::zero()
    }
}

/// All that the oracle holds.
pub struct OracleState {
    /// The number of pairs registered so far, saturating.
    pub pair_count: u32,
    /// The blend of this block's trades, for each pair that traded.
    pub accumulator: Map<AssetPairId, PriceEntry>,
    /// One snapshot per block.
    pub ten: TenWindows,
    /// One snapshot per ten blocks.
    pub hundred: Windows,
    /// One snapshot per hundred blocks.
    pub thousand: Windows,
}

impl OracleState {
    /// The state before anything has happened.
    pub open spec fn empty() -> OracleState {
        OracleState {
            pair_count: 0,
            accumulator: Map::empty(),
            ten: Seq::empty(),
            hundred: Map::empty(),
            thousand: Map::empty(),
        }
    }

    /// What holds of every state the oracle can reach: no pair is tracked
    /// twice, the counter follows the number of tracked pairs until it
    /// saturates, what a pair has accumulated is a valid observation, no
    /// window is over its capacity, and a pair has a window of a coarser
    /// resolution only if it has one of the finer.
    pub open spec fn valid(self) -> bool {
        &&& forall|pair: AssetPairId| #[trigger]
            self.accumulator.contains_key(pair) ==> self.accumulator[pair].is_observation()
        &&& self.pair_count == if self.ten.len() <= u32::MAX {
            self.ten.len()
        } else {
            u32::MAX as nat
        }
        &&& forall|i: int, j: int|
            0 <= i < j < self.ten.len() ==> (#[trigger] self.ten[i]).0 != (#[trigger] self.ten[j]).0
        &&& forall|i: int|
            0 <= i < self.ten.len() ==> (#[trigger] self.ten[i]).1.len() <= BUCKET_SIZE
        &&& forall|pair: AssetPairId| #[trigger]
            self.hundred.contains_key(pair) ==> is_tracked(self.ten, pair)
                && self.hundred[pair].len() <= BUCKET_SIZE
        &&& forall|pair: AssetPairId| #[trigger]
            self.thousand.contains_key(pair) ==> self.hundred.contains_key(pair)
                && self.thousand[pair].len() <= BUCKET_SIZE
    }

    /// A pool was created for `pair`. An unseen pair gets an empty window
    /// at the end of the finest resolution and is counted, unless the
    /// counter is at its maximum; a known pair changes nothing.
    pub open spec fn register(self, pair: AssetPairId) -> OracleState {
        if is_tracked(self.ten, pair) {
            self
        } else {
            OracleState {
                pair_count: if self.pair_count < u32::MAX {
                    (self.pair_count + 1) as u32
                } else {
                    self.pair_count
                },
                ten: self.ten.push((pair, Seq::empty())),
                ..self
            }
        }
    }

    /// A trade of `pair` was observed. An entry that is no valid
    /// observation is ignored. Otherwise the pair's accumulated entry, or
    /// the zero entry at the pair's first trade of the block, is replaced
    /// by its blend with `entry`; where there is no blend, nothing changes.
    pub open spec fn record_trade(self, pair: AssetPairId, entry: PriceEntry) -> OracleState {
        if !entry.is_observation() {
            self
        } else {
            match combine(entry_or_zero(self.accumulator, pair), entry) {
                Some(blend) => OracleState {
                    accumulator: self.accumulator.insert(pair, blend),
                    ..self
                },
                None => self,
            }
        }
    }

    /// The trades of `entries` observed for `pair`, first to last.
    pub open spec fn record_trades(self, pair: AssetPairId, entries: Seq<PriceEntry>) -> OracleState
        decreases entries.len(),
    {
        if entries.len() == 0 {
            self
        } else {
            self.record_trades(pair, entries.drop_last()).record_trade(pair, entries.last())
        }
    }

    /// This block's snapshot of the pair at position `slot`: what it
    /// accumulated, or, if it did not trade, its newest snapshot again.
    pub open spec fn observation(self, slot: int) -> PriceInfo {
        let (pair, window) = self.ten[slot];
        if self.accumulator.contains_key(pair) {
            self.accumulator[pair].info()
        } else {
            window_last(window)
        }
    }

    /// Every tracked pair's finest window receives this block's snapshot.
    pub open spec fn fold_block(self) -> OracleState {
        OracleState {
            ten: Seq::new(
                self.ten.len(),
                |slot: int|
                    (self.ten[slot].0, window_push(self.ten[slot].1, self.observation(slot))),
            ),
            ..self
        }
    }

    /// The accumulator is emptied, for all pairs at once.
    pub open spec fn clear_accumulator(self) -> OracleState {
        OracleState { accumulator: Map::empty(), ..self }
    }

    /// Every tracked pair's middle window, created empty if the pair has
    /// none yet, receives the average of the pair's finest window.
    pub open spec fn rollup_hundred(self) -> OracleState {
        OracleState {
            hundred: Map::new(
                |pair: AssetPairId| self.hundred.contains_key(pair) || is_tracked(self.ten, pair),
                |pair: AssetPairId|
                    if is_tracked(self.ten, pair) {
                        window_push(
                            window_or_empty(self.hundred, pair),
                            window_average(self.ten[slot_of(self.ten, pair)].1),
                        )
                    } else {
                        self.hundred[pair]
                    },
            ),
            ..self
        }
    }

    /// The coarsest window of every pair that has a middle window, created
    /// empty if the pair has none yet, receives the average of the pair's
    /// middle window.
    pub open spec fn rollup_thousand(self) -> OracleState {
        OracleState {
            thousand: Map::new(
                |pair: AssetPairId|
                    self.thousand.contains_key(pair) || self.hundred.contains_key(pair),
                |pair: AssetPairId|
                    if self.hundred.contains_key(pair) {
                        window_push(
                            window_or_empty(self.thousand, pair),
                            window_average(self.hundred[pair]),
                        )
                    } else {
                        self.thousand[pair]
                    },
            ),
            ..self
        }
    }

    /// Whether the finest windows are rolled into the middle ones at block
    /// `now`: at the last block of every ten, but not at block zero.
    pub open spec fn rolls_hundred(now: BlockNumber) -> bool {
        now != 0 && now % (BUCKET_SIZE as u64) == BUCKET_SIZE - 1
    }

    /// Whether the middle windows are rolled into the coarsest ones at
    /// block `now`: at the last block of every hundred.
    pub open spec fn rolls_thousand(now: BlockNumber) -> bool {
        now != 0 && now % ((BUCKET_SIZE * BUCKET_SIZE) as u64) == BUCKET_SIZE * BUCKET_SIZE - 1
    }

    /// The windows after block `now`: the block's snapshots are pushed,
    /// then the finest windows are rolled up if it is their time, then the
    /// middle ones if it is theirs, which then see what was just pushed.
    pub open spec fn update_windows(self, now: BlockNumber) -> OracleState {
        let folded = self.fold_block();
        let middle = if Self::rolls_hundred(now) {
            folded.rollup_hundred()
        } else {
            folded
        };
        if Self::rolls_thousand(now) {
            middle.rollup_thousand()
        } else {
            middle
        }
    }

    /// The state after block `now`: the windows are updated and the
    /// accumulator starts the next block empty.
    pub open spec fn on_block_start(self, now: BlockNumber) -> OracleState {
        self.update_windows(now).clear_accumulator()
    }

    /// The newest snapshot of `pair` at the finest resolution; nothing for
    /// a pair that is not tracked.
    pub open spec fn spot(self, pair: AssetPairId) -> Option<PriceInfo> {
        if is_tracked(self.ten, pair) {
            Some(window_last(self.ten[slot_of(self.ten, pair)].1))
        } else {
            None
        }
    }
}

/// Where no pair occurs twice, the position at which a pair is found is
/// its position.
pub proof fn lemma_slot_is_unique(ten: TenWindows, slot: int)
    requires
        0 <= slot < ten.len(),
        forall|i: int, j: int|
            0 <= i < j < ten.len() ==> (#[trigger] ten[i]).0 != (#[trigger] ten[j]).0,
    ensures
        is_tracked(ten, ten[slot].0),
        slot_of(ten, ten[slot].0) == slot,
{
}

/// Registering a pair leads from a valid state to a valid state.
pub proof fn lemma_register_keeps_valid(state: OracleState, pair: AssetPairId)
    requires
        state.valid(),
    ensures
        state.register(pair).valid(),
{
    if !is_tracked(state.ten, pair) {
        let after = state.register(pair);
        assert forall|other: AssetPairId| #[trigger]
            after.hundred.contains_key(other) implies is_tracked(after.ten, other)
            && after.hundred[other].len() <= BUCKET_SIZE by {
            let slot = slot_of(state.ten, other);
            assert(after.ten[slot].0 == other);
        }
    }
}

/// Observing a trade leads from a valid state to a valid state.
pub proof fn lemma_record_trade_keeps_valid(
    state: OracleState,
    pair: AssetPairId,
    entry: PriceEntry,
)
    requires
        state.valid(),
    ensures
        state.record_trade(pair, entry).valid(),
{
    let previous = entry_or_zero(state.accumulator, pair);
    if entry.is_observation() && combine(previous, entry) is Some {
        if state.accumulator.contains_key(pair) {
            lemma_combine_price_between(previous, entry);
        } else {
            lemma_combine_from_zero(entry);
        }
    }
}

/// Pushing the block's snapshots leads from a valid state to a valid
/// state, and keeps every pair at its position.
pub proof fn lemma_fold_block_keeps_valid(state: OracleState)
    requires
        state.valid(),
    ensures
        state.fold_block().valid(),
        forall|pair: AssetPairId|
            is_tracked(state.fold_block().ten, pair) == is_tracked(state.ten, pair),
{
    let after = state.fold_block();
    assert forall|pair: AssetPairId| is_tracked(after.ten, pair) == is_tracked(state.ten, pair) by {
        if is_tracked(state.ten, pair) {
            let slot = slot_of(state.ten, pair);
            assert(after.ten[slot].0 == pair);
        }
    }
}

/// Emptying the accumulator leads from a valid state to a valid state.
pub proof fn lemma_clear_accumulator_keeps_valid(state: OracleState)
    requires
        state.valid(),
    ensures
        state.clear_accumulator().valid(),
{
}

/// Rolling the finest windows up leads from a valid state to a valid
/// state in which every tracked pair has a middle window.
pub proof fn lemma_rollup_hundred_keeps_valid(state: OracleState)
    requires
        state.valid(),
    ensures
        state.rollup_hundred().valid(),
        forall|pair: AssetPairId|
            state.rollup_hundred().hundred.contains_key(pair) == is_tracked(state.ten, pair),
{
}

/// Rolling the middle windows up leads from a valid state to a valid
/// state in which every pair with a middle window has a coarsest one.
pub proof fn lemma_rollup_thousand_keeps_valid(state: OracleState)
    requires
        state.valid(),
    ensures
        state.rollup_thousand().valid(),
        forall|pair: AssetPairId|
            state.rollup_thousand().thousand.contains_key(pair) == state.hundred.contains_key(pair),
{
}

/// A block leads from a valid state to a valid state.
pub proof fn lemma_on_block_start_keeps_valid(state: OracleState, now: BlockNumber)
    requires
        state.valid(),
    ensures
        state.update_windows(now).valid(),
        state.on_block_start(now).valid(),
{
    lemma_fold_block_keeps_valid(state);
    let folded = state.fold_block();
    let middle = if OracleState::rolls_hundred(now) {
        folded.rollup_hundred()
    } else {
        folded
    };
    if OracleState::rolls_hundred(now) {
        lemma_rollup_hundred_keeps_valid(folded);
    }
    if OracleState::rolls_thousand(now) {
        lemma_rollup_thousand_keeps_valid(middle);
    }
    lemma_clear_accumulator_keeps_valid(state.update_windows(now));
}

} // verus!
