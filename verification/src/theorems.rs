//! What holds of the oracle across calls, proved from the transitions.

use crate::asset::AssetPairId;
use crate::bucket::{window_average, window_last, window_push, BUCKET_SIZE};
use crate::state::{
    entry_or_zero, is_tracked, lemma_fold_block_keeps_valid, lemma_on_block_start_keeps_valid,
    lemma_rollup_hundred_keeps_valid, lemma_slot_is_unique, window_or_empty, BlockNumber,
    OracleState,
};
use crate::types::{
    combine, lemma_combine_from_zero, lemma_combine_volume_overflow, PriceEntry,
};
use vstd::prelude::*;

verus! {

/// The blend of `start` with each entry of `entries` in turn, first to
/// last, where an entry that cannot be blended in is skipped.
pub open spec fn blend_all(start: PriceEntry, entries: Seq<PriceEntry>) -> PriceEntry
    decreases entries.len(),
{
    if entries.len() == 0 {
        start
    } else {
        let so_far = blend_all(start, entries.drop_last());
        match combine(so_far, entries.last()) {
            Some(blend) => blend,
            None => so_far,
        }
    }
}

/// After any sequence of valid trades of a pair, the pair's accumulated
/// entry is the blend of those trades in the order in which they came,
/// starting from what the pair had accumulated before, or from the zero
/// entry. Nothing else in the state has changed.
pub proof fn theorem_accumulator_blends_in_order(
    state: OracleState,
    pair: AssetPairId,
    entries: Seq<PriceEntry>,
)
    requires
        forall|i: int| 0 <= i < entries.len() ==> (#[trigger] entries[i]).is_observation(),
    ensures
        ({
            let after = state.record_trades(pair, entries);
            &&& entry_or_zero(after.accumulator, pair) == blend_all(
                entry_or_zero(state.accumulator, pair),
                entries,
            )
            &&& after.accumulator.contains_key(pair) == (state.accumulator.contains_key(pair)
                || entries.len() > 0)
            &&& after.accumulator.remove(pair) == state.accumulator.remove(pair)
            &&& after.pair_count == state.pair_count
            &&& after.ten == state.ten
            &&& after.hundred == state.hundred
            &&& after.thousand == state.thousand
        }),
    decreases entries.len(),
{
    if entries.len() > 0 {
        let earlier = entries.drop_last();
        theorem_accumulator_blends_in_order(state, pair, earlier);
        if !state.record_trades(pair, earlier).accumulator.contains_key(pair) {
            lemma_combine_from_zero(entries.last());
        }
    }
}

/// A trade cannot be blended into an accumulated entry whose trade volume
/// is at its maximum: the state stays as it was.
pub proof fn theorem_full_volume_drops_trade(
    state: OracleState,
    pair: AssetPairId,
    entry: PriceEntry,
)
    requires
        state.accumulator.contains_key(pair),
        state.accumulator[pair].trade_amount == u128::MAX,
        entry.trade_amount > 0,
    ensures
        state.record_trade(pair, entry) == state,
{
    lemma_combine_volume_overflow(state.accumulator[pair], entry);
}

/// Registering a pair a second time changes nothing.
pub proof fn theorem_register_is_idempotent(state: OracleState, pair: AssetPairId)
    ensures
        state.register(pair).register(pair) == state.register(pair),
        is_tracked(state.register(pair).ten, pair),
{
    if !is_tracked(state.ten, pair) {
        let once = state.register(pair);
        assert(once.ten[state.ten.len() as int].0 == pair);
    }
}

/// The counter never decreases: it grows by one exactly when an unseen
/// pair is registered below the counter's maximum, and neither a trade nor
/// a block changes it.
pub proof fn theorem_counter_is_monotone(
    state: OracleState,
    pair: AssetPairId,
    entry: PriceEntry,
    now: BlockNumber,
)
    ensures
        state.register(pair).pair_count >= state.pair_count,
        state.register(pair).pair_count == state.pair_count + 1 <==> !is_tracked(state.ten, pair)
            && state.pair_count < u32::MAX,
        state.record_trade(pair, entry).pair_count == state.pair_count,
        state.on_block_start(now).pair_count == state.pair_count,
{
}

/// In a block in which a pair did not trade, the snapshot pushed for it is
/// its newest snapshot again: the pair's spot price stays what it was, and
/// is not reset to zero.
pub proof fn theorem_quiet_block_carries_forward(state: OracleState, now: BlockNumber, slot: int)
    requires
        state.valid(),
        0 <= slot < state.ten.len(),
        !state.accumulator.contains_key(state.ten[slot].0),
    ensures
        ({
            let after = state.on_block_start(now);
            let pair = state.ten[slot].0;
            &&& after.ten.len() == state.ten.len()
            &&& after.ten[slot].0 == pair
            &&& after.ten[slot].1 == window_push(state.ten[slot].1, window_last(state.ten[slot].1))
            &&& window_last(after.ten[slot].1) == window_last(state.ten[slot].1)
            &&& after.spot(pair) == state.spot(pair)
        }),
{
    lemma_fold_block_keeps_valid(state);
    lemma_slot_is_unique(state.ten, slot);
    lemma_slot_is_unique(state.fold_block().ten, slot);
}

/// In a block in which a pair traded, the snapshot pushed for it is what
/// it accumulated, and that becomes its spot price.
pub proof fn theorem_traded_block_pushes_blend(state: OracleState, now: BlockNumber, slot: int)
    requires
        state.valid(),
        0 <= slot < state.ten.len(),
        state.accumulator.contains_key(state.ten[slot].0),
    ensures
        ({
            let after = state.on_block_start(now);
            let pair = state.ten[slot].0;
            &&& after.ten[slot].1 == window_push(state.ten[slot].1, state.accumulator[pair].info())
            &&& after.spot(pair) == Some(state.accumulator[pair].info())
            &&& after.accumulator == Map::<AssetPairId, PriceEntry>::empty()
        }),
{
    lemma_fold_block_keeps_valid(state);
    lemma_slot_is_unique(state.ten, slot);
    lemma_slot_is_unique(state.fold_block().ten, slot);
}

/// The coarser windows change on schedule only: the middle ones at the
/// last block of every ten, the coarsest at the last block of every
/// hundred. At such a block a pair's window receives exactly one snapshot,
/// the average of the pair's next finer window as the block leaves it.
pub proof fn theorem_rollups_follow_schedule(state: OracleState, now: BlockNumber, slot: int)
    requires
        state.valid(),
        0 <= slot < state.ten.len(),
    ensures
        ({
            let after = state.on_block_start(now);
            let pair = state.ten[slot].0;
            &&& now % 10 != 9 ==> after.hundred == state.hundred
            &&& now % 100 != 99 ==> after.thousand == state.thousand
            &&& now % 10 == 9 ==> after.hundred.contains_key(pair) && after.hundred[pair]
                == window_push(
                window_or_empty(state.hundred, pair),
                window_average(after.ten[slot].1),
            )
            &&& now % 100 == 99 ==> after.thousand.contains_key(pair) && after.thousand[pair]
                == window_push(
                window_or_empty(state.thousand, pair),
                window_average(after.hundred[pair]),
            )
        }),
{
    lemma_fold_block_keeps_valid(state);
    lemma_slot_is_unique(state.ten, slot);
    lemma_slot_is_unique(state.fold_block().ten, slot);
    if now % 10 == 9 {
        lemma_rollup_hundred_keeps_valid(state.fold_block());
    }
}

/// Once the newest snapshot of a pair has a non-zero price, it keeps one
/// through every block, traded or not: a real observation is never
/// replaced by the zero snapshot.
pub proof fn theorem_spot_price_stays_nonzero(state: OracleState, now: BlockNumber, slot: int)
    requires
        state.valid(),
        0 <= slot < state.ten.len(),
        window_last(state.ten[slot].1).avg_price.inner != 0,
    ensures
        window_last(state.on_block_start(now).ten[slot].1).avg_price.inner != 0,
{
    let pair = state.ten[slot].0;
    if state.accumulator.contains_key(pair) {
        theorem_traded_block_pushes_blend(state, now, slot);
    } else {
        theorem_quiet_block_carries_forward(state, now, slot);
    }
}

/// The hook is to be called once for a block. A second call finds the
/// accumulator empty and takes the block for one without trades: it
/// pushes every pair's newest snapshot once more, so that a window that
/// is not yet full holds one snapshot too many.
pub proof fn theorem_second_call_pushes_again(state: OracleState, now: BlockNumber, slot: int)
    requires
        state.valid(),
        0 <= slot < state.ten.len(),
    ensures
        ({
            let once = state.on_block_start(now);
            let twice = once.on_block_start(now);
            &&& twice.ten[slot].1 == window_push(once.ten[slot].1, window_last(once.ten[slot].1))
            &&& once.ten[slot].1.len() < BUCKET_SIZE ==> twice.ten[slot].1.len()
                == once.ten[slot].1.len() + 1
        }),
{
    lemma_on_block_start_keeps_valid(state, now);
    lemma_fold_block_keeps_valid(state);
    theorem_quiet_block_carries_forward(state.on_block_start(now), now, slot);
}

} // verus!
