//! Plain data exchanged with callers of the pool.
use vstd::prelude::*;

verus! {

/// An amount at the internal scale of six decimal places.
pub type AmountE6 = u128;

/// The assets that the pool's books name; trades run between `USDC` and `USDT`.
#[derive(Clone, Copy, Debug, PartialEq, Eq, Structural, PartialOrd, Ord, Hash)]
pub enum TokenId {
    USDC,
    USDT,
    ICP,
    BOB,
}

#[derive(Clone, Copy, Debug, PartialEq, Eq, Structural)]
pub struct PoolInfo {
    pub a_amp: u32,
    pub fee_bps: u16,
    pub reserve_usdc: AmountE6,
    pub reserve_usdt: AmountE6,
    pub total_shares: AmountE6,
    pub virtual_price_e6: u128,
}

/// A quote: output, input-side fee, and the price `dy / dx` scaled by 1e6.
#[derive(Clone, Copy, Debug, PartialEq, Eq, Structural)]
pub struct QuoteOut {
    pub dy_e6: AmountE6,
    pub fee_e6: AmountE6,
    pub price_e6: u128,
}

#[derive(Clone, Copy, Debug, PartialEq, Eq, Structural)]
pub struct Position {
    pub shares: AmountE6,
}

#[derive(Clone, Debug)]
pub struct SubBalance {
    pub id: String,
    pub usdc: AmountE6,
    pub usdt: AmountE6,
    pub bob: AmountE6,
    pub icp: AmountE6,
}

#[derive(Clone, Copy, Debug, PartialEq, Eq, Structural)]
pub struct RiskParams {
    /// Largest price impact allowed, relative to 1:1.
    pub max_price_impact_bps: u32,
    /// Largest drift of `D` allowed, in e6 units.
    pub d_tolerance_e6: u64,
}

impl Default for RiskParams {
    fn default() -> (r: Self)
        ensures
            r.max_price_impact_bps == 3000,
            r.d_tolerance_e6 == 50,
    {
        RiskParams { max_price_impact_bps: 3000, d_tolerance_e6: 50 }
    }
}

#[derive(Clone, Copy, Debug, PartialEq, Eq, Structural)]
pub struct StatsSnapshot {
    pub now_sec: u64,
    pub tvl_e6: u128,
    pub vol_24h_e6: u128,
    pub vol_7d_e6: u128,
    pub fee_24h_e6: u128,
    pub fee_7d_e6: u128,
    pub swaps_24h: u32,
    /// Fees of the last day, annualised against TVL, in basis points.
    pub apy_24h_bp: u32,
}

#[derive(Clone, Copy, Debug, PartialEq, Eq, Structural)]
pub struct CyclesInfo {
    pub balance: u128,
    pub alert_threshold: u128,
    pub low: bool,
}

#[derive(Clone, Debug, PartialEq, Eq)]
pub enum TextResult {
    Success(String),
    Failure(String),
}

#[derive(Clone, Debug, PartialEq, Eq)]
pub enum PositionResult {
    Success(Position),
    Failure(String),
}

#[derive(Clone, Copy, Debug, PartialEq, Eq, Structural)]
pub struct TwoAmounts {
    pub usdc: AmountE6,
    pub usdt: AmountE6,
}

#[derive(Clone, Debug, PartialEq, Eq)]
pub enum TwoAmountsResult {
    Success(TwoAmounts),
    Failure(String),
}

#[derive(Clone, Copy, Debug, PartialEq, Eq, Structural)]
pub struct UserBalances {
    pub usdc: AmountE6,
    pub usdt: AmountE6,
    pub bob: AmountE6,
    pub icp: AmountE6,
}

#[derive(Clone, Copy, Debug, PartialEq, Eq, Structural)]
pub struct SwapOk {
    pub dy_e6: AmountE6,
}

#[derive(Clone, Debug, PartialEq, Eq)]
pub enum StdResultSwap {
    Success(SwapOk),
    Failure(String),
}

} // verus!
