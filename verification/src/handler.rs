//! The entry points that a pool calls when it is created and when it
//! trades.

use crate::asset::AssetPair;
use crate::pallet::Pallet;
use crate::types::{Balance, Price, PriceEntry};
use vstd::prelude::*;

verus! {

/// Hands the events of a pool to the oracle.
pub struct PriceOracleHandler;

impl PriceOracleHandler {
    /// A pool for `asset_pair` was created.
    pub fn on_create_pool(oracle: &mut Pallet, asset_pair: AssetPair)
        requires
            old(oracle).wf(),
        ensures
            final(oracle)@ == old(oracle)@.register(asset_pair.spec_id()),
            final(oracle).wf(),
    {
        oracle.on_create_pool(asset_pair);
    }

    /// A trade of `amount` was made in the pool of `asset_pair` at `price`,
    /// while the pool held `liq_amount`. Zero values are not valid: such a
    /// trade is ignored.
    pub fn on_trade(
        oracle: &mut Pallet,
        asset_pair: AssetPair,
        price: Price,
        amount: Balance,
        liq_amount: Balance,
    )
        requires
            old(oracle).wf(),
        ensures
            final(oracle)@ == old(oracle)@.record_trade(
                asset_pair.spec_id(),
                (PriceEntry { price, trade_amount: amount, liquidity_amount: liq_amount }),
            ),
            final(oracle).wf(),
    {
        if price.is_zero() || amount == 0 || liq_amount == 0 {
            return ;
        }
        let price_entry = PriceEntry { price, trade_amount: amount, liquidity_amount: liq_amount };
        oracle.on_trade(asset_pair, price_entry);
    }
}

} // verus!
