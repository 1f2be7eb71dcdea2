//! The sliding window: the most recent snapshots of one resolution.

use crate::arith::{lemma_mean_bounded, lemma_mean_from_parts};
use crate::types::{Price, PriceInfo};
use vstd::arithmetic::div_mod::lemma_fundamental_div_mod;
use vstd::prelude::*;

verus! {

/// The number of snapshots a window holds, and the factor between one
/// resolution and the next.
pub const BUCKET_SIZE: usize = 10;

/// The last `n` elements of `s`, or all of `s` if it has no more than `n`.
pub open spec fn last_n(s: Seq<PriceInfo>, n: nat) -> Seq<PriceInfo> {
    if s.len() <= n {
        s
    } else {
        s.skip(s.len() - n)
    }
}

/// The window after `value` was pushed: the newest snapshot goes to the
/// end, and the oldest leaves once the window is full.
pub open spec fn window_push(window: Seq<PriceInfo>, value: PriceInfo) -> Seq<PriceInfo> {
    last_n(window.push(value), BUCKET_SIZE as nat)
}

/// The window after every snapshot of `values` was pushed, first to last.
pub open spec fn window_extend(window: Seq<PriceInfo>, values: Seq<PriceInfo>) -> Seq<PriceInfo>
    decreases values.len(),
{
    if values.len() == 0 {
        window
    } else {
        window_push(window_extend(window, values.drop_last()), values.last())
    }
}

/// The newest snapshot of the window, or the zero snapshot if it is empty.
pub open spec fn window_last(window: Seq<PriceInfo>) -> PriceInfo {
    if window.len() == 0 {
        PriceInfo::zero()
    } else {
        window.last()
    }
}

/// The sum of the prices in the window, in fixed-point units.
pub open spec fn price_total(window: Seq<PriceInfo>) -> int
    decreases window.len(),
{
    if window.len() == 0 {
        0
    } else {
        price_total(window.drop_last()) + window.last().avg_price.inner
    }
}

/// The sum of the volumes in the window.
pub open spec fn volume_total(window: Seq<PriceInfo>) -> int
    decreases window.len(),
{
    if window.len() == 0 {
        0
    } else {
        volume_total(window.drop_last()) + window.last().volume
    }
}

/// The arithmetic mean of the snapshots in the window, each component
/// rounded down; the zero snapshot if the window is empty.
pub open spec fn window_average(window: Seq<PriceInfo>) -> PriceInfo {
    if window.len() == 0 {
        PriceInfo::zero()
    } else {
        PriceInfo {
            avg_price: Price { inner: (price_total(window) / (window.len() as int)) as u128 },
            volume: (volume_total(window) / (window.len() as int)) as u128,
        }
    }
}

/// Both totals of a window are bounded by its length times the largest
/// 128-bit value, so both means fit in 128 bits.
pub proof fn lemma_totals_bounded(window: Seq<PriceInfo>)
    ensures
        0 <= price_total(window) <= window.len() * u128::MAX,
        0 <= volume_total(window) <= window.len() * u128::MAX,
    decreases window.len(),
{
    if window.len() > 0 {
        lemma_totals_bounded(window.drop_last());
    }
}

/// A fixed-capacity window of snapshots, oldest first.
pub struct BucketQueue {
    items: Vec<PriceInfo>,
}

impl BucketQueue {
    /// The snapshots held, oldest first.
    pub closed spec fn view(&self) -> Seq<PriceInfo> {
        self.items@
    }

    /// A window never holds more than `BUCKET_SIZE` snapshots.
    pub open spec fn wf(&self) -> bool {
        self@.len() <= BUCKET_SIZE
    }

    /// The empty window.
    pub fn new() -> (queue: BucketQueue)
        ensures
            queue@ == Seq::<PriceInfo>::empty(),
            queue.wf(),
    {
        BucketQueue { items: Vec::new() }
    }

    /// The number of snapshots held.
    pub fn len(&self) -> (n: usize)
        ensures
            n == self@.len(),
    {
        self.items.len()
    }

    /// The snapshot at position `index`, counted from the oldest, if there
    /// is one.
    pub fn get(&self, index: usize) -> (info: Option<PriceInfo>)
        ensures
            info == (if index < self@.len() {
                Some(self@[index as int])
            } else {
                None
            }),
    {
        if index < self.items.len() {
            Some(self.items[index])
        } else {
            None
        }
    }

    /// Pushes `price_info` as the newest snapshot, evicting the oldest one
    /// if the window is full.
    pub fn update_last(&mut self, price_info: PriceInfo)
        requires
            old(self).wf(),
        ensures
            final(self)@ == window_push(old(self)@, price_info),
            final(self).wf(),
    {
        if self.items.len() >= BUCKET_SIZE {
            self.items.remove(0);
        }
        self.items.push(price_info);
    }

    /// The newest snapshot, or the zero snapshot if the window is empty.
    pub fn get_last(&self) -> (info: PriceInfo)
        ensures
            info == window_last(self@),
    {
        let n = self.items.len();
        if n == 0 {
            PriceInfo { avg_price: Price { inner: 0 }, volume: 0 }
        } else {
            self.items[n - 1]
        }
    }

    /// The mean snapshot of the window. It is exact for every window: the
    /// sums are never formed, so nothing can overflow.
    pub fn calculate_average(&self) -> (info: PriceInfo)
        requires
            self.wf(),
        ensures
            info == window_average(self@),
    {
        let n = self.items.len();
        if n == 0 {
            return PriceInfo { avg_price: Price { inner: 0 }, volume: 0 };
        }
        let count: u128 = n as u128;
        let mut price_whole: u128 = 0;
        let mut price_rest: u128 = 0;
        let mut volume_whole: u128 = 0;
        let mut volume_rest: u128 = 0;
        let mut i: usize = 0;
        while i < n
            invariant
                0 < n <= BUCKET_SIZE,
                n == self.items.len(),
                count == n,
                i <= n,
                price_whole * count + price_rest == price_total(self.items@.take(i as int)),
                volume_whole * count + volume_rest == volume_total(self.items@.take(i as int)),
                price_rest <= i * (count - 1),
                volume_rest <= i * (count - 1),
            decreases n - i,
        {
            let item = self.items[i];
            proof {
                let seen = self.items@.take(i as int);
                let next = self.items@.take(i as int + 1);
                assert(next.drop_last() =~= seen);
                lemma_totals_bounded(next);
                let p = item.avg_price.inner as int;
                let v = item.volume as int;
                let c = count as int;
                lemma_fundamental_div_mod(p, c);
                lemma_fundamental_div_mod(v, c);
                assert((price_whole + p / c) * c == price_whole * c + c * (p / c))
                    by (nonlinear_arith);
                assert((volume_whole + v / c) * c == volume_whole * c + c * (v / c))
                    by (nonlinear_arith);
                assert(price_whole + p / c <= u128::MAX) by (nonlinear_arith)
                    requires
                        (price_whole + p / c) * c <= next.len() * u128::MAX,
                        next.len() <= c,
                        0 < c,
                ;
                assert(volume_whole + v / c <= u128::MAX) by (nonlinear_arith)
                    requires
                        (volume_whole + v / c) * c <= next.len() * u128::MAX,
                        next.len() <= c,
                        0 < c,
                ;
                assert((i + 1) * (count - 1) == i * (count - 1) + (count - 1))
                    by (nonlinear_arith);
                assert(i * (count - 1) <= 90) by (nonlinear_arith)
                    requires
                        0 <= i < 10,
                        0 < count <= 10,
                ;
            }
            price_whole = price_whole + item.avg_price.inner / count;
            price_rest = price_rest + item.avg_price.inner % count;
            volume_whole = volume_whole + item.volume / count;
            volume_rest = volume_rest + item.volume % count;
            i = i + 1;
        }
        proof {
            assert(self.items@.take(n as int) =~= self.items@);
            lemma_totals_bounded(self.items@);
            lemma_mean_from_parts(price_whole as int, price_rest as int, count as int);
            lemma_mean_from_parts(volume_whole as int, volume_rest as int, count as int);
            lemma_mean_bounded(price_total(self.items@), count as int, u128::MAX as int);
            lemma_mean_bounded(volume_total(self.items@), count as int, u128::MAX as int);
        }
        PriceInfo {
            avg_price: Price { inner: price_whole + price_rest / count },
            volume: volume_whole + volume_rest / count,
        }
    }
}

impl Default for BucketQueue {
    fn default() -> (queue: BucketQueue)
        ensures
            queue@ == Seq::<PriceInfo>::empty(),
    {
        BucketQueue { items: Vec::new() }
    }
}

/// Pushing onto a fuller history and trimming gives the same window as
/// trimming first: eviction never loses one of the newest snapshots.
pub proof fn lemma_push_after_trim(history: Seq<PriceInfo>, value: PriceInfo)
    ensures
        window_push(last_n(history, BUCKET_SIZE as nat), value) == last_n(
            history.push(value),
            BUCKET_SIZE as nat,
        ),
{
    assert(window_push(last_n(history, BUCKET_SIZE as nat), value) =~= last_n(
        history.push(value),
        BUCKET_SIZE as nat,
    ));
}

/// However many snapshots are pushed, the window never holds more than
/// `BUCKET_SIZE` of them, and it holds exactly the newest ones of all that
/// it ever held, in the order in which they were pushed.
pub proof fn lemma_window_keeps_newest(window: Seq<PriceInfo>, values: Seq<PriceInfo>)
    requires
        window.len() <= BUCKET_SIZE,
    ensures
        window_extend(window, values) == last_n(window + values, BUCKET_SIZE as nat),
        window_extend(window, values).len() <= BUCKET_SIZE,
        window_extend(window, values).len() == if window.len() + values.len() <= BUCKET_SIZE {
            window.len() + values.len()
        } else {
            BUCKET_SIZE as nat
        },
    decreases values.len(),
{
    if values.len() > 0 {
        let earlier = values.drop_last();
        lemma_window_keeps_newest(window, earlier);
        lemma_push_after_trim(window + earlier, values.last());
    }
}

} // verus!
