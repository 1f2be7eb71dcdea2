//! Asset pairs and the identifier under which the oracle tracks a market.

use vstd::prelude::*;

verus! {

/// The identifier of an asset.
pub type AssetId = u32;

/// The identifier of a market: the same for both directions of a pair.
pub type AssetPairId = u64;

/// Two assets that are traded against each other.
#[derive(Clone, Copy, PartialEq, Eq, Structural, Debug)]
pub struct AssetPair {
    pub asset_in: AssetId,
    pub asset_out: AssetId,
}

impl AssetPair {
    /// Whether `self` and `other` name the same market, in either direction.
    pub open spec fn same_market(&self, other: AssetPair) -> bool {
        ||| (self.asset_in == other.asset_in && self.asset_out == other.asset_out)
        ||| (self.asset_in == other.asset_out && self.asset_out == other.asset_in)
    }

    /// The smaller asset identifier in the upper 32 bits, the larger one
    /// in the lower 32 bits.
    pub open spec fn spec_id(&self) -> AssetPairId {
        if self.asset_in <= self.asset_out {
            (self.asset_in * 0x1_0000_0000 + self.asset_out) as u64
        } else {
            (self.asset_out * 0x1_0000_0000 + self.asset_in) as u64
        }
    }

    pub fn new(asset_in: AssetId, asset_out: AssetId) -> (pair: AssetPair)
        ensures
            pair.asset_in == asset_in,
            pair.asset_out == asset_out,
    {
        AssetPair { asset_in, asset_out }
    }

    /// The identifier of the market that the pair names.
    #[verifier::when_used_as_spec(spec_id)]
    pub fn id(&self) -> (id: AssetPairId)
        ensures
            id == self.spec_id(),
    {
        let a: u64 = self.asset_in as u64;
        let b: u64 = self.asset_out as u64;
        if a <= b {
            a * 0x1_0000_0000 + b
        } else {
            b * 0x1_0000_0000 + a
        }
    }
}

/// Two pairs have the same identifier exactly when they name the same
/// market: the order of the two assets does not matter, and nothing else
/// is lost.
pub proof fn lemma_id_names_market(a: AssetPair, b: AssetPair)
    ensures
        a.spec_id() == b.spec_id() <==> a.same_market(b),
{
}

} // verus!
