//! The pool's parameters and reserves.
use crate::arith::{mul_sat, sat_u128};
use crate::fees::min_int;
use crate::types::PoolInfo;
use vstd::prelude::*;

verus! {

/// Parameters and reserves of the USDC/USDT pool. `a_amp` is the
/// amplification, either plain (below `A_PRECISION`) or already scaled.
#[derive(Clone, Copy, Debug, PartialEq, Eq, Structural)]
pub struct Pool {
    pub a_amp: u32,
    pub fee_bps: u16,
    pub reserve_usdc: u128,
    pub reserve_usdt: u128,
    pub total_shares: u128,
    pub virtual_price_e6: u128,
}

impl Default for Pool {
    fn default() -> (r: Self)
        ensures
            r == Pool::default_spec(),
    {
        Pool {
            a_amp: 100,
            fee_bps: 10,
            reserve_usdc: 0,
            reserve_usdt: 0,
            total_shares: 0,
            virtual_price_e6: 1_000_000,
        }
    }
}

impl Pool {
    pub open spec fn default_spec() -> Pool {
        Pool {
            a_amp: 100,
            fee_bps: 10,
            reserve_usdc: 0,
            reserve_usdt: 0,
            total_shares: 0,
            virtual_price_e6: 1_000_000,
        }
    }

    pub open spec fn info_spec(self) -> PoolInfo {
        PoolInfo {
            a_amp: self.a_amp,
            fee_bps: self.fee_bps,
            reserve_usdc: self.reserve_usdc,
            reserve_usdt: self.reserve_usdt,
            total_shares: self.total_shares,
            virtual_price_e6: self.virtual_price_e6,
        }
    }

    /// The pool's public summary.
    pub fn get_pool_info(&self) -> (r: PoolInfo)
        ensures
            r == self.info_spec(),
    {
        PoolInfo {
            a_amp: self.a_amp,
            fee_bps: self.fee_bps,
            reserve_usdc: self.reserve_usdc,
            reserve_usdt: self.reserve_usdt,
            total_shares: self.total_shares,
            virtual_price_e6: self.virtual_price_e6,
        }
    }

    /// Overwrites the reserves for a demonstration pool valued 1:1, with
    /// as many shares as the two reserves together.
    pub fn seed_pool_demo(&mut self, usdc: u128, usdt: u128) -> (r: PoolInfo)
        requires
            usdc + usdt <= u128::MAX,
        ensures
            *final(self) == (Pool {
                reserve_usdc: usdc,
                reserve_usdt: usdt,
                total_shares: (usdc + usdt) as u128,
                virtual_price_e6: 1_000_000,
                ..*old(self)
            }),
            r == final(self).info_spec(),
    {
        self.reserve_usdc = usdc;
        self.reserve_usdt = usdt;
        self.total_shares = usdc + usdt;
        self.virtual_price_e6 = 1_000_000;
        self.get_pool_info()
    }

    /// Total value locked: both reserves, saturated.
    pub fn get_tvl_e6(&self) -> (r: u128)
        ensures
            r == sat_u128(self.reserve_usdc + self.reserve_usdt),
    {
        self.reserve_usdc.saturating_add(self.reserve_usdt)
    }

    /// For a requested deposit, the amounts actually taken and the shares
    /// minted: all of it into an empty pool; else the smaller proportional
    /// mint, and the amounts that back exactly that many shares.
    pub fn compute_add_use_amounts(&self, req_usdc_e6: u128, req_usdt_e6: u128) -> (r: (u128, u128, u128))
        ensures
            r == add_use_spec(*self, req_usdc_e6 as int, req_usdt_e6 as int),
    {
        let ru = self.reserve_usdc;
        let rv = self.reserve_usdt;
        let ts = self.total_shares;
        if ts == 0 || ru == 0 || rv == 0 {
            return (req_usdc_e6, req_usdt_e6, req_usdc_e6.saturating_add(req_usdt_e6));
        }
        let s1 = mul_sat(req_usdc_e6, ts) / ru;
        let s2 = mul_sat(req_usdt_e6, ts) / rv;
        let mint = if s1 <= s2 { s1 } else { s2 };
        if mint == 0 {
            return (0, 0, 0);
        }
        (mul_sat(mint, ru) / ts, mul_sat(mint, rv) / ts, mint)
    }
}

pub open spec fn add_use_spec(p: Pool, u: int, v: int) -> (u128, u128, u128) {
    let (ru, rv, ts) = (p.reserve_usdc as int, p.reserve_usdt as int, p.total_shares as int);
    if ts == 0 || ru == 0 || rv == 0 {
        (u as u128, v as u128, sat_u128(u + v) as u128)
    } else {
        let mint = min_int(sat_u128(u * ts) / ru, sat_u128(v * ts) / rv);
        if mint == 0 {
            (0, 0, 0)
        } else {
            ((sat_u128(mint * ru) / ts) as u128, (sat_u128(mint * rv) / ts) as u128, mint as u128)
        }
    }
}

} // verus!
