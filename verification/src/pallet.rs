//! The executable oracle: storage for the accumulator and the three
//! resolutions, and the handlers that the pool and the block scheduler
//! call.

use crate::asset::{AssetPair, AssetPairId};
use crate::bucket::{window_average, window_push, BucketQueue, BUCKET_SIZE};
use crate::state::{
    is_tracked, lemma_on_block_start_keeps_valid, lemma_fold_block_keeps_valid,
    lemma_record_trade_keeps_valid, lemma_register_keeps_valid, lemma_rollup_hundred_keeps_valid,
    lemma_rollup_thousand_keeps_valid, lemma_slot_is_unique, slot_of, window_or_empty,
    BlockNumber, OracleState, TenWindows, Windows,
};
use crate::types::{PriceEntry, PriceInfo};
use std::collections::BTreeMap;
use vstd::prelude::*;

verus! {

/// The oracle engine and all its state.
pub struct Pallet {
    num_of_tracked_assets: u32,
    price_data_accumulator: BTreeMap<AssetPairId, PriceEntry>,
    price_data_ten: Vec<(AssetPairId, BucketQueue)>,
    price_data_hundred: BTreeMap<AssetPairId, BucketQueue>,
    price_data_thousand: BTreeMap<AssetPairId, BucketQueue>,
}

/// The windows held in `ten`, as snapshots.
spec fn ten_windows(ten: Seq<(AssetPairId, BucketQueue)>) -> TenWindows {
    ten.map_values(|slot: (AssetPairId, BucketQueue)| (slot.0, slot.1@))
}

/// The windows held in `map`, as snapshots.
spec fn windows(map: Map<AssetPairId, BucketQueue>) -> Windows {
    map.map_values(|queue: BucketQueue| queue@)
}

impl Pallet {
    /// The state that the engine is in.
    pub closed spec fn view(&self) -> OracleState {
        OracleState {
            pair_count: self.num_of_tracked_assets,
            accumulator: self.price_data_accumulator@,
            ten: ten_windows(self.price_data_ten@),
            hundred: windows(self.price_data_hundred@),
            thousand: windows(self.price_data_thousand@),
        }
    }

    /// The engine is in a state that it can reach.
    pub open spec fn wf(&self) -> bool {
        self@.valid()
    }

    /// An engine that tracks no pair yet.
    pub fn new() -> (oracle: Pallet)
        ensures
            oracle@ == OracleState::empty(),
            oracle.wf(),
    {
        let oracle = Pallet {
            num_of_tracked_assets: 0,
            price_data_accumulator: BTreeMap::new(),
            price_data_ten: Vec::new(),
            price_data_hundred: BTreeMap::new(),
            price_data_thousand: BTreeMap::new(),
        };
        assert(oracle@.ten =~= OracleState::empty().ten);
        assert(oracle@.thousand =~= OracleState::empty().thousand);
        oracle
    }

    /// The position of `id` among the finest windows, if it is tracked.
    fn find_slot(&self, id: AssetPairId) -> (found: Option<usize>)
        requires
            self.wf(),
        ensures
            match found {
                Some(slot) => is_tracked(self@.ten, id) && slot == slot_of(self@.ten, id)
                    && slot < self.price_data_ten.len() && self.price_data_ten[slot as int].0 == id,
                None => !is_tracked(self@.ten, id),
            },
    {
        let n = self.price_data_ten.len();
        let mut i: usize = 0;
        while i < n
            invariant
                n == self.price_data_ten.len(),
                i <= n,
                self.wf(),
                forall|j: int| 0 <= j < i ==> (#[trigger] self@.ten[j]).0 != id,
            decreases n - i,
        {
            if self.price_data_ten[i].0 == id {
                proof {
                    lemma_slot_is_unique(self@.ten, i as int);
                }
                return Some(i);
            }
            i = i + 1;
        }
        None
    }

    /// A pool was created for `asset_pair`: the pair is tracked from now
    /// on. Doing so again changes nothing.
    pub fn on_create_pool(&mut self, asset_pair: AssetPair)
        requires
            old(self).wf(),
        ensures
            final(self)@ == old(self)@.register(asset_pair.spec_id()),
            final(self).wf(),
    {
        let id = asset_pair.id();
        proof {
            lemma_register_keeps_valid(self@, id);
        }
        match self.find_slot(id) {
            Some(_) => {},
            None => {
                if self.num_of_tracked_assets < u32::MAX {
                    self.num_of_tracked_assets = self.num_of_tracked_assets + 1;
                }
                self.price_data_ten.push((id, BucketQueue::new()));
                assert(self@.ten =~= old(self)@.register(id).ten);
            },
        }
    }

    /// A trade of `asset_pair` was made. An entry with a zero price, a
    /// zero volume or zero liquidity is ignored, and so is one that cannot
    /// be blended with what the pair has accumulated in this block.
    pub fn on_trade(&mut self, asset_pair: AssetPair, price_entry: PriceEntry)
        requires
            old(self).wf(),
        ensures
            final(self)@ == old(self)@.record_trade(asset_pair.spec_id(), price_entry),
            final(self).wf(),
    {
        let id = asset_pair.id();
        proof {
            lemma_record_trade_keeps_valid(self@, id, price_entry);
        }
        if price_entry.price.is_zero() || price_entry.trade_amount == 0
            || price_entry.liquidity_amount == 0 {
            return ;
        }
        let previous_entry = match self.price_data_accumulator.get(&id) {
            Some(previous) => *previous,
            None => PriceEntry::default(),
        };
        match previous_entry.calculate_new_price_entry(&price_entry) {
            Some(new_entry) => {
                self.price_data_accumulator.insert(id, new_entry);
            },
            None => {},
        }
    }

    /// Pushes this block's snapshot into every finest window.
    fn fold_block(&mut self)
        requires
            old(self).wf(),
        ensures
            final(self)@ == old(self)@.fold_block(),
            final(self).wf(),
    {
        let ghost before = self@;
        let n = self.price_data_ten.len();
        let mut i: usize = 0;
        while i < n
            invariant
                before.valid(),
                n == before.ten.len(),
                i <= n,
                self@.pair_count == before.pair_count,
                self@.accumulator == before.accumulator,
                self@.hundred == before.hundred,
                self@.thousand == before.thousand,
                self@.ten.len() == n,
                self.price_data_ten.len() == n,
                forall|j: int| 0 <= j < n ==> (#[trigger] self@.ten[j]).0 == before.ten[j].0,
                forall|j: int|
                    0 <= j < i ==> (#[trigger] self@.ten[j]).1 == window_push(
                        before.ten[j].1,
                        before.observation(j),
                    ),
                forall|j: int| i <= j < n ==> (#[trigger] self@.ten[j]).1 == before.ten[j].1,
            decreases n - i,
        {
            let ghost prior = self@;
            let id = self.price_data_ten[i].0;
            let result = match self.price_data_accumulator.get(&id) {
                Some(price_entry) => price_entry.price_info(),
                None => self.price_data_ten[i].1.get_last(),
            };
            assert(prior.ten[i as int].1 == before.ten[i as int].1);
            self.price_data_ten[i].1.update_last(result);
            assert forall|j: int| 0 <= j < n implies (#[trigger] self@.ten[j]).0
                == before.ten[j].0 by {
                assert(prior.ten[j].0 == before.ten[j].0);
            }
            assert forall|j: int| 0 <= j < i + 1 implies (#[trigger] self@.ten[j]).1
                == window_push(before.ten[j].1, before.observation(j)) by {
                if j < i {
                    assert(prior.ten[j].1 == window_push(before.ten[j].1, before.observation(j)));
                }
            }
            assert forall|j: int| i + 1 <= j < n implies (#[trigger] self@.ten[j]).1
                == before.ten[j].1 by {
                assert(prior.ten[j].1 == before.ten[j].1);
            }
            i = i + 1;
        }
        proof {
            assert(self@.ten =~= before.fold_block().ten);
            lemma_fold_block_keeps_valid(before);
        }
    }

    /// Pushes the average of every finest window into the pair's middle
    /// window.
    fn rollup_hundred(&mut self)
        requires
            old(self).wf(),
        ensures
            final(self)@ == old(self)@.rollup_hundred(),
            final(self).wf(),
    {
        let ghost before = self@;
        let n = self.price_data_ten.len();
        let mut i: usize = 0;
        while i < n
            invariant
                before.valid(),
                n == before.ten.len(),
                n == self.price_data_ten.len(),
                i <= n,
                self@.pair_count == before.pair_count,
                self@.accumulator == before.accumulator,
                self@.ten == before.ten,
                self@.thousand == before.thousand,
                forall|pair: AssetPairId| #[trigger]
                    self@.hundred.contains_key(pair) ==> is_tracked(before.ten, pair),
                forall|j: int|
                    0 <= j < i ==> #[trigger] rolled(
                        self@.hundred,
                        before.hundred,
                        before.ten[j].0,
                        before.ten[j].1,
                    ),
                forall|j: int|
                    i <= j < n ==> #[trigger] untouched(
                        self@.hundred,
                        before.hundred,
                        before.ten[j].0,
                    ),
            decreases n - i,
        {
            let ghost prior = self@.hundred;
            let id = self.price_data_ten[i].0;
            assert(before.ten[i as int].1.len() <= BUCKET_SIZE);
            let average = self.price_data_ten[i].1.calculate_average();
            assert(untouched(prior, before.hundred, before.ten[i as int].0));
            let mut queue = match self.price_data_hundred.remove(&id) {
                Some(queue) => queue,
                None => BucketQueue::new(),
            };
            queue.update_last(average);
            self.price_data_hundred.insert(id, queue);
            proof {
                let current = self@.hundred;
                assert(current =~= prior.insert(id, queue@));
                lemma_slot_is_unique(before.ten, i as int);
                assert forall|j: int| 0 <= j < i + 1 implies #[trigger] rolled(
                    current,
                    before.hundred,
                    before.ten[j].0,
                    before.ten[j].1,
                ) by {
                    if j < i {
                        assert(rolled(prior, before.hundred, before.ten[j].0, before.ten[j].1));
                    }
                }
                assert forall|j: int| i + 1 <= j < n implies #[trigger] untouched(
                    current,
                    before.hundred,
                    before.ten[j].0,
                ) by {
                    assert(untouched(prior, before.hundred, before.ten[j].0));
                }
            }
            i = i + 1;
        }
        proof {
            let target = before.rollup_hundred().hundred;
            assert forall|pair: AssetPairId| is_tracked(before.ten, pair) implies #[trigger]
                self@.hundred.contains_key(pair) && self@.hundred[pair] == target[pair] by {
                let slot = slot_of(before.ten, pair);
                assert(rolled(
                    self@.hundred,
                    before.hundred,
                    before.ten[slot].0,
                    before.ten[slot].1,
                ));
            }
            assert(self@.hundred =~= target);
            lemma_rollup_hundred_keeps_valid(before);
        }
    }

    /// Pushes the average of every middle window into the pair's coarsest
    /// window.
    fn rollup_thousand(&mut self)
        requires
            old(self).wf(),
        ensures
            final(self)@ == old(self)@.rollup_thousand(),
            final(self).wf(),
    {
        let ghost before = self@;
        let n = self.price_data_ten.len();
        let mut i: usize = 0;
        while i < n
            invariant
                before.valid(),
                n == before.ten.len(),
                n == self.price_data_ten.len(),
                i <= n,
                self@.pair_count == before.pair_count,
                self@.accumulator == before.accumulator,
                self@.ten == before.ten,
                self@.hundred == before.hundred,
                forall|pair: AssetPairId| #[trigger]
                    self@.thousand.contains_key(pair) ==> before.hundred.contains_key(pair),
                forall|j: int|
                    0 <= j < i && before.hundred.contains_key(before.ten[j].0)
                        ==> #[trigger] rolled(
                        self@.thousand,
                        before.thousand,
                        before.ten[j].0,
                        before.hundred[before.ten[j].0],
                    ),
                forall|j: int|
                    i <= j < n ==> #[trigger] untouched(
                        self@.thousand,
                        before.thousand,
                        before.ten[j].0,
                    ),
            decreases n - i,
        {
            let ghost prior = self@.thousand;
            let id = self.price_data_ten[i].0;
            assert(untouched(prior, before.thousand, before.ten[i as int].0));
            let rolled_up = match self.price_data_hundred.get(&id) {
                Some(middle) => {
                    assert(middle@ == before.hundred[id]);
                    Some(middle.calculate_average())
                },
                None => None,
            };
            match rolled_up {
                Some(average) => {
                    let mut queue = match self.price_data_thousand.remove(&id) {
                        Some(queue) => queue,
                        None => BucketQueue::new(),
                    };
                    queue.update_last(average);
                    self.price_data_thousand.insert(id, queue);
                    assert(self@.thousand =~= prior.insert(id, queue@));
                },
                None => {},
            }
            proof {
                let current = self@.thousand;
                assert forall|j: int|
                    0 <= j < i + 1 && before.hundred.contains_key(
                        before.ten[j].0,
                    ) implies #[trigger] rolled(
                    current,
                    before.thousand,
                    before.ten[j].0,
                    before.hundred[before.ten[j].0],
                ) by {
                    if j < i {
                        assert(rolled(
                            prior,
                            before.thousand,
                            before.ten[j].0,
                            before.hundred[before.ten[j].0],
                        ));
                    }
                }
                assert forall|j: int| i + 1 <= j < n implies #[trigger] untouched(
                    current,
                    before.thousand,
                    before.ten[j].0,
                ) by {
                    assert(untouched(prior, before.thousand, before.ten[j].0));
                }
            }
            i = i + 1;
        }
        proof {
            let target = before.rollup_thousand().thousand;
            assert forall|pair: AssetPairId| before.hundred.contains_key(pair) implies #[trigger]
                self@.thousand.contains_key(pair) && self@.thousand[pair] == target[pair] by {
                let slot = slot_of(before.ten, pair);
                assert(rolled(
                    self@.thousand,
                    before.thousand,
                    before.ten[slot].0,
                    before.hundred[before.ten[slot].0],
                ));
            }
            assert(self@.thousand =~= target);
            lemma_rollup_thousand_keeps_valid(before);
        }
    }

    /// Updates the windows for block `now`: every finest window receives
    /// the block's snapshot; at the last block of every ten the middle
    /// windows receive the averages of the finest, and at the last block
    /// of every hundred the coarsest receive the averages of the middle
    /// ones. Block zero only pushes the snapshots.
    pub fn update_data(&mut self, now: BlockNumber)
        requires
            old(self).wf(),
        ensures
            final(self)@ == old(self)@.update_windows(now),
            final(self).wf(),
    {
        self.fold_block();
        if now == 0 {
            return ;
        }
        let depth: u64 = BUCKET_SIZE as u64;
        if now % depth == depth - 1 {
            self.rollup_hundred();
        }
        if now % (depth * depth) == depth * depth - 1 {
            self.rollup_thousand();
        }
    }

    /// The block scheduler's hook, to be called once for every block, in
    /// the order of the blocks. Updates the windows for block `now` and
    /// empties the accumulator. Returns the number of pairs that the
    /// update went through, by which its cost is accounted.
    pub fn on_initialize(&mut self, now: BlockNumber) -> (touched: u32)
        requires
            old(self).wf(),
        ensures
            final(self)@ == old(self)@.on_block_start(now),
            final(self).wf(),
            touched == old(self)@.pair_count,
    {
        proof {
            lemma_on_block_start_keeps_valid(self@, now);
        }
        self.update_data(now);
        self.price_data_accumulator.clear();
        self.num_of_tracked_assets
    }

    /// The number of pairs registered so far.
    pub fn num_of_assets(&self) -> (count: u32)
        ensures
            count == self@.pair_count,
    {
        self.num_of_tracked_assets
    }

    /// What `asset_pair` has accumulated in this block, or the zero entry
    /// if it has not traded yet.
    pub fn price_accumulator(&self, asset_pair: AssetPair) -> (entry: PriceEntry)
        ensures
            entry == crate::state::entry_or_zero(self@.accumulator, asset_pair.spec_id()),
    {
        let id = asset_pair.id();
        match self.price_data_accumulator.get(&id) {
            Some(entry) => *entry,
            None => PriceEntry::default(),
        }
    }

    /// The finest window of `asset_pair`, if the pair is tracked.
    pub fn price_data_ten(&self, asset_pair: AssetPair) -> (window: Option<&BucketQueue>)
        requires
            self.wf(),
        ensures
            match window {
                Some(queue) => is_tracked(self@.ten, asset_pair.spec_id()) && queue@
                    == self@.ten[slot_of(self@.ten, asset_pair.spec_id())].1 && queue.wf(),
                None => !is_tracked(self@.ten, asset_pair.spec_id()),
            },
    {
        let id = asset_pair.id();
        match self.find_slot(id) {
            Some(slot) => {
                Some(&self.price_data_ten[slot].1)
            },
            None => None,
        }
    }

    /// The middle window of `asset_pair`, if the pair has one.
    pub fn price_data_hundred(&self, asset_pair: AssetPair) -> (window: Option<&BucketQueue>)
        requires
            self.wf(),
        ensures
            match window {
                Some(queue) => self@.hundred.contains_key(asset_pair.spec_id()) && queue@
                    == self@.hundred[asset_pair.spec_id()] && queue.wf(),
                None => !self@.hundred.contains_key(asset_pair.spec_id()),
            },
    {
        let id = asset_pair.id();
        self.price_data_hundred.get(&id)
    }

    /// The coarsest window of `asset_pair`, if the pair has one.
    pub fn price_data_thousand(&self, asset_pair: AssetPair) -> (window: Option<&BucketQueue>)
        requires
            self.wf(),
        ensures
            match window {
                Some(queue) => self@.thousand.contains_key(asset_pair.spec_id()) && queue@
                    == self@.thousand[asset_pair.spec_id()] && queue.wf(),
                None => !self@.thousand.contains_key(asset_pair.spec_id()),
            },
    {
        let id = asset_pair.id();
        self.price_data_thousand.get(&id)
    }

    /// The newest snapshot of `asset_pair` at the finest resolution;
    /// nothing for a pair that is not tracked.
    pub fn spot_snapshot(&self, asset_pair: AssetPair) -> (snapshot: Option<PriceInfo>)
        requires
            self.wf(),
        ensures
            snapshot == self@.spot(asset_pair.spec_id()),
    {
        let id = asset_pair.id();
        match self.find_slot(id) {
            Some(slot) => {
                Some(self.price_data_ten[slot].1.get_last())
            },
            None => None,
        }
    }
}

/// After a roll-up, the window of `pair` in `now` is its window in
/// `before`, or the empty window, with the average of `source` pushed.
spec fn rolled(
    now: Windows,
    before: Windows,
    pair: AssetPairId,
    source: Seq<PriceInfo>,
) -> bool {
    now.contains_key(pair) && now[pair] == window_push(
        window_or_empty(before, pair),
        window_average(source),
    )
}

/// The window of `pair` is in `now` what it was in `before`.
spec fn untouched(now: Windows, before: Windows, pair: AssetPairId) -> bool {
    now.contains_key(pair) == before.contains_key(pair) && (now.contains_key(pair) ==> now[pair]
        == before[pair])
}

} // verus!
