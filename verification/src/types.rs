//! Prices, trade observations and their volume-weighted combination.

use crate::arith::{weighted_mean, weighted_mean_u128, lemma_weighted_mean_from_low};
use vstd::arithmetic::div_mod::lemma_div_by_multiple;
use vstd::prelude::*;

verus! {

/// An amount of an asset, in its smallest unit.
pub type Balance = u128;

/// One whole unit of price in the fixed-point representation of [`Price`].
pub const PRICE_SCALE: u128 = 1_000_000_000_000_000_000;

/// A non-negative fixed-point ratio with eighteen decimal places:
/// `inner` counts units of `1 / PRICE_SCALE`.
#[derive(Clone, Copy, PartialEq, Eq, Structural, Debug)]
pub struct Price {
    pub inner: u128,
}

impl Price {
    /// The price whose fixed-point representation is `inner`.
    pub fn from_inner(inner: u128) -> (p: Price)
        ensures
            p.inner == inner,
    {
        Price { inner }
    }

    /// The price zero.
    pub open spec fn zero() -> Price {
        Price { inner: 0 }
    }

    pub fn is_zero(&self) -> (z: bool)
        ensures
            z == (self.inner == 0),
    {
        self.inner == 0
    }
}

/// A finalized (average price, volume) snapshot, as stored in the windows.
#[derive(Clone, Copy, PartialEq, Eq, Structural, Debug)]
pub struct PriceInfo {
    pub avg_price: Price,
    pub volume: Balance,
}

impl PriceInfo {
    /// The snapshot with zero price and zero volume.
    pub open spec fn zero() -> PriceInfo {
        PriceInfo { avg_price: Price::zero(), volume: 0 }
    }
}

impl Default for PriceInfo {
    fn default() -> (info: PriceInfo)
        ensures
            info == PriceInfo::zero(),
    {
        PriceInfo { avg_price: Price { inner: 0 }, volume: 0 }
    }
}

/// One trade, or the blend of all trades of a pair seen so far in a block.
#[derive(Clone, Copy, PartialEq, Eq, Structural, Debug)]
pub struct PriceEntry {
    pub price: Price,
    pub trade_amount: Balance,
    pub liquidity_amount: Balance,
}

/// The blend of `previous` with `incoming`.
///
/// The price is the mean of the two prices weighted by their trade
/// volumes, rounded down to the fixed-point grid; trade volumes and
/// liquidity are summed. There is no blend when a sum exceeds 128 bits or
/// when both trade volumes are zero. The blended price itself cannot
/// overflow: it lies between the two prices.
pub open spec fn combine(previous: PriceEntry, incoming: PriceEntry) -> Option<PriceEntry> {
    let volume = previous.trade_amount + incoming.trade_amount;
    let liquidity = previous.liquidity_amount + incoming.liquidity_amount;
    if volume == 0 || volume > u128::MAX || liquidity > u128::MAX {
        None
    } else {
        Some(
            PriceEntry {
                price: Price {
                    inner: weighted_mean(
                        previous.price.inner as int,
                        previous.trade_amount as int,
                        incoming.price.inner as int,
                        incoming.trade_amount as int,
                    ) as u128,
                },
                trade_amount: volume as u128,
                liquidity_amount: liquidity as u128,
            },
        )
    }
}

impl PriceEntry {
    /// The entry a pair starts each block with: nothing traded yet.
    pub open spec fn zero() -> PriceEntry {
        PriceEntry { price: Price::zero(), trade_amount: 0, liquidity_amount: 0 }
    }

    /// Whether the entry may enter the accumulator: a trade with a zero
    /// price, a zero volume or zero liquidity is not a valid observation.
    pub open spec fn is_observation(self) -> bool {
        self.price.inner != 0 && self.trade_amount != 0 && self.liquidity_amount != 0
    }

    /// What the entry contributes to a window: its price and its volume.
    pub open spec fn info(self) -> PriceInfo {
        PriceInfo { avg_price: self.price, volume: self.trade_amount }
    }

    /// Reduces the entry to the snapshot that is stored in a window.
    pub fn price_info(&self) -> (info: PriceInfo)
        ensures
            info == self.info(),
    {
        PriceInfo { avg_price: self.price, volume: self.trade_amount }
    }

    /// Blends `self`, the state so far, with `incoming`. `None` means that
    /// the incoming entry is to be ignored and the state kept.
    pub fn calculate_new_price_entry(&self, incoming: &PriceEntry) -> (blend: Option<PriceEntry>)
        ensures
            blend == combine(*self, *incoming),
    {
        let volume = match self.trade_amount.checked_add(incoming.trade_amount) {
            Some(v) => v,
            None => { return None; },
        };
        let liquidity = match self.liquidity_amount.checked_add(incoming.liquidity_amount) {
            Some(l) => l,
            None => { return None; },
        };
        if volume == 0 {
            return None;
        }
        let inner = weighted_mean_u128(
            self.price.inner,
            self.trade_amount,
            incoming.price.inner,
            incoming.trade_amount,
        );
        Some(
            PriceEntry { price: Price { inner }, trade_amount: volume, liquidity_amount: liquidity },
        )
    }
}

impl Default for PriceEntry {
    fn default() -> (entry: PriceEntry)
        ensures
            entry == PriceEntry::zero(),
    {
        PriceEntry { price: Price { inner: 0 }, trade_amount: 0, liquidity_amount: 0 }
    }
}

/// The blended price lies between the two prices that went into it.
pub proof fn lemma_combine_price_between(previous: PriceEntry, incoming: PriceEntry)
    requires
        combine(previous, incoming) is Some,
    ensures
        ({
            let blend = combine(previous, incoming)->Some_0;
            let p = previous.price.inner;
            let q = incoming.price.inner;
            &&& blend.price.inner == weighted_mean(
                p as int,
                previous.trade_amount as int,
                q as int,
                incoming.trade_amount as int,
            )
            &&& (if p <= q { p } else { q }) <= blend.price.inner <= (if p <= q { q } else { p })
        }),
{
    let p = previous.price.inner as int;
    let q = incoming.price.inner as int;
    let v = previous.trade_amount as int;
    let w = incoming.trade_amount as int;
    if p <= q {
        lemma_weighted_mean_from_low(p, v, q, w);
    } else {
        lemma_weighted_mean_from_low(q, w, p, v);
    }
}

/// The blend does not depend on which of the two entries came first.
pub proof fn lemma_combine_is_commutative(previous: PriceEntry, incoming: PriceEntry)
    ensures
        combine(previous, incoming) == combine(incoming, previous),
{
}

/// Blending the zero entry with a trade of non-zero volume yields that
/// trade: the first trade of a block is taken as it is.
pub proof fn lemma_combine_from_zero(incoming: PriceEntry)
    requires
        incoming.trade_amount != 0,
    ensures
        combine(PriceEntry::zero(), incoming) == Some(incoming),
{
    let p = incoming.price.inner as int;
    let w = incoming.trade_amount as int;
    lemma_weighted_mean_from_low(0, 0, p, w);
    lemma_div_by_multiple(p, w);
}

/// Once the accumulated trade volume is at its maximum, no trade of
/// non-zero volume can be blended in.
pub proof fn lemma_combine_volume_overflow(previous: PriceEntry, incoming: PriceEntry)
    requires
        previous.trade_amount == u128::MAX,
        incoming.trade_amount > 0,
    ensures
        combine(previous, incoming) is None,
{
}

} // verus!
