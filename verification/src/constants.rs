//! Built-in market registries, one per deployment context.
//!
//! Symbol lookups scan these tables linearly; the scan is not free, so
//! callers should cache the `MarketId` they resolve.

use vstd::prelude::*;

use crate::types::Context;

verus! {

/// Registry entry for a spot market.
#[derive(Copy, Clone, Debug)]
pub struct SpotMarketConfig {
    pub symbol: &'static str,
    pub market_index: u16,
}

/// Registry entry for a perp market.
#[derive(Copy, Clone, Debug)]
pub struct PerpMarketConfig {
    pub base_asset_symbol: &'static str,
    pub market_index: u16,
}

/// The spot market registry of `context`, as symbol/index pairs.
pub open spec fn spec_spot_markets(context: Context) -> Seq<(Seq<char>, u16)> {
    match context {
        Context::Dev => seq![("USDC"@, 0u16), ("SOL"@, 1u16), ("wBTC"@, 2u16)],
        Context::Mainnet => seq![("USDC"@, 0u16), ("SOL"@, 1u16), ("mSOL"@, 2u16), ("wBTC"@, 3u16)],
    }
}

/// The perp market registry of `context`, as base-asset-symbol/index pairs.
pub open spec fn spec_perp_markets(context: Context) -> Seq<(Seq<char>, u16)> {
    match context {
        Context::Dev => seq![("SOL"@, 0u16), ("BTC"@, 1u16), ("ETH"@, 2u16)],
        Context::Mainnet => seq![("SOL"@, 0u16), ("BTC"@, 1u16), ("ETH"@, 2u16)],
    }
}

/// Spot markets known under `context`.
pub fn spot_markets(context: Context) -> (r: Vec<SpotMarketConfig>)
    ensures
        r@.len() == spec_spot_markets(context).len(),
        forall|i: int|
            0 <= i < r@.len() ==> r@[i].symbol@ == spec_spot_markets(context)[i].0
                && r@[i].market_index == spec_spot_markets(context)[i].1,
{
    let mut r: Vec<SpotMarketConfig> = Vec::new();
    match context {
        Context::Dev => {
            r.push(SpotMarketConfig { symbol: "USDC", market_index: 0 });
            r.push(SpotMarketConfig { symbol: "SOL", market_index: 1 });
            r.push(SpotMarketConfig { symbol: "wBTC", market_index: 2 });
        },
        Context::Mainnet => {
            r.push(SpotMarketConfig { symbol: "USDC", market_index: 0 });
            r.push(SpotMarketConfig { symbol: "SOL", market_index: 1 });
            r.push(SpotMarketConfig { symbol: "mSOL", market_index: 2 });
            r.push(SpotMarketConfig { symbol: "wBTC", market_index: 3 });
        },
    }
    r
}

/// Perp markets known under `context`.
pub fn perp_markets(context: Context) -> (r: Vec<PerpMarketConfig>)
    ensures
        r@.len() == spec_perp_markets(context).len(),
        forall|i: int|
            0 <= i < r@.len() ==> r@[i].base_asset_symbol@ == spec_perp_markets(context)[i].0
                && r@[i].market_index == spec_perp_markets(context)[i].1,
{
    let mut r: Vec<PerpMarketConfig> = Vec::new();
    match context {
        Context::Dev | Context::Mainnet => {
            r.push(PerpMarketConfig { base_asset_symbol: "SOL", market_index: 0 });
            r.push(PerpMarketConfig { base_asset_symbol: "BTC", market_index: 1 });
            r.push(PerpMarketConfig { base_asset_symbol: "ETH", market_index: 2 });
        },
    }
    r
}

} // verus!
