//! A multi-resolution price oracle.
//!
//! Trades of an asset pair are blended, within a block, into one
//! volume-weighted observation. At every block the observation of each
//! tracked pair is pushed into a sliding window of the last ten blocks; at
//! the last block of every ten the average of that window is pushed into a
//! window of the last hundred blocks, and at the last block of every
//! hundred the average of that one into a window of the last thousand.
//!
//! - [`types`]: prices, observations and their combination;
//! - [`bucket`]: the sliding window and its average;
//! - [`asset`]: asset pairs and their identifiers;
//! - [`state`]: the oracle as a mathematical state, and its transitions;
//! - [`pallet`]: the executable engine, proved to follow the transitions;
//! - [`handler`]: the entry points for a pool;
//! - [`theorems`]: what holds across calls;
//! - [`arith`]: the arithmetic underneath.

pub mod arith;
pub mod asset;
pub mod bucket;
pub mod handler;
pub mod pallet;
pub mod state;
pub mod theorems;
pub mod types;

pub use asset::{AssetId, AssetPair, AssetPairId};
pub use bucket::{BucketQueue, BUCKET_SIZE};
pub use handler::PriceOracleHandler;
pub use pallet::Pallet;
pub use state::BlockNumber;
pub use types::{Balance, Price, PriceEntry, PriceInfo, PRICE_SCALE};
