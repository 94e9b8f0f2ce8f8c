//! Fee accrual by a per-share growth index: a fee raises the index by
//! `fee * ACC_E18 / total_shares`, and a user is owed
//! `shares * (index - last index) / ACC_E18` when settled.
use crate::arith::{mul_sat, sat_sub, sat_u128};
use crate::book::Holding;
use crate::types::TokenId;
use vstd::prelude::*;

verus! {

/// Scale of the fee growth index.
pub const ACC_E18: u128 = 1_000_000_000_000_000_000;

/// Fees held for liquidity providers and the growth index of each asset.
#[derive(Clone, Copy, Debug, PartialEq, Eq, Structural)]
pub struct FeeState {
    pub vault_usdc: u128,
    pub vault_usdt: u128,
    pub growth_usdc_e18: u128,
    pub growth_usdt_e18: u128,
}

impl FeeState {
    pub open spec fn zero() -> FeeState {
        FeeState { vault_usdc: 0, vault_usdt: 0, growth_usdc_e18: 0, growth_usdt_e18: 0 }
    }
}

/// What is owed after settling `shares` from index `idx` to `growth`.
pub open spec fn accrued(owed: int, growth: int, idx: int, shares: int) -> int {
    let delta = sat_sub(growth, idx);
    if delta > 0 && shares > 0 {
        sat_u128(owed + sat_u128(shares * delta) / (ACC_E18 as int))
    } else {
        owed
    }
}

/// A holding settled against the current growth indexes.
pub open spec fn settled(h: Holding, f: FeeState) -> Holding {
    Holding {
        fee_owed_usdc: accrued(h.fee_owed_usdc as int, f.growth_usdc_e18 as int, h.fee_idx_usdc as int, h.shares as int) as u128,
        fee_owed_usdt: accrued(h.fee_owed_usdt as int, f.growth_usdt_e18 as int, h.fee_idx_usdt as int, h.shares as int) as u128,
        fee_idx_usdc: f.growth_usdc_e18,
        fee_idx_usdt: f.growth_usdt_e18,
        ..h
    }
}

/// The index increment that a fee brings when `ts` shares are outstanding.
pub open spec fn growth_step(fee: int, ts: int) -> int {
    if ts > 0 { sat_u128(fee * ACC_E18) / ts } else { 0 }
}

/// The fee state after booking an input-side fee on `token`.
pub open spec fn accrue_spec(f: FeeState, ts: u128, token: TokenId, fee: u128) -> FeeState {
    if fee == 0 {
        f
    } else if token == TokenId::USDC {
        FeeState {
            vault_usdc: sat_u128(f.vault_usdc + fee) as u128,
            growth_usdc_e18: sat_u128(f.growth_usdc_e18 + growth_step(fee as int, ts as int)) as u128,
            ..f
        }
    } else if token == TokenId::USDT {
        FeeState {
            vault_usdt: sat_u128(f.vault_usdt + fee) as u128,
            growth_usdt_e18: sat_u128(f.growth_usdt_e18 + growth_step(fee as int, ts as int)) as u128,
            ..f
        }
    } else {
        f
    }
}

pub open spec fn min_int(a: int, b: int) -> int {
    if a <= b { a } else { b }
}

/// What a user could claim now: the settled amounts, capped by the vault.
pub open spec fn preview_spec(h: Holding, f: FeeState) -> (int, int) {
    let s = settled(h, f);
    (min_int(s.fee_owed_usdc as int, f.vault_usdc as int), min_int(s.fee_owed_usdt as int, f.vault_usdt as int))
}

fn accrue_one(owed: u128, growth: u128, idx: u128, shares: u128) -> (r: u128)
    ensures
        r == accrued(owed as int, growth as int, idx as int, shares as int),
{
    let delta = growth.saturating_sub(idx);
    if delta > 0 && shares > 0 {
        let add = mul_sat(shares, delta) / ACC_E18;
        owed.saturating_add(add)
    } else {
        owed
    }
}

/// Settles a holding: adds what its shares earned since its last index and
/// moves its indexes to the current growth.
pub fn settle_user_fee(h: Holding, f: &FeeState) -> (r: Holding)
    ensures
        r == settled(h, *f),
{
    Holding {
        fee_owed_usdc: accrue_one(h.fee_owed_usdc, f.growth_usdc_e18, h.fee_idx_usdc, h.shares),
        fee_owed_usdt: accrue_one(h.fee_owed_usdt, f.growth_usdt_e18, h.fee_idx_usdt, h.shares),
        fee_idx_usdc: f.growth_usdc_e18,
        fee_idx_usdt: f.growth_usdt_e18,
        ..h
    }
}

/// Books an input-side fee: into the vault, and into the growth index when
/// shares are outstanding.
pub fn accrue(f: &mut FeeState, ts: u128, token: TokenId, fee: u128)
    ensures
        *final(f) == accrue_spec(*old(f), ts, token, fee),
{
    if fee == 0 {
        return;
    }
    let inc = if ts > 0 { mul_sat(fee, ACC_E18) / ts } else { 0 };
    match token {
        TokenId::USDC => {
            f.vault_usdc = f.vault_usdc.saturating_add(fee);
            f.growth_usdc_e18 = f.growth_usdc_e18.saturating_add(inc);
        },
        TokenId::USDT => {
            f.vault_usdt = f.vault_usdt.saturating_add(fee);
            f.growth_usdt_e18 = f.growth_usdt_e18.saturating_add(inc);
        },
        _ => {},
    }
}

/// The claimable amounts of a holding, capped by the vault; changes nothing.
pub fn preview(h: Holding, f: &FeeState) -> (r: (u128, u128))
    ensures
        r.0 == preview_spec(h, *f).0,
        r.1 == preview_spec(h, *f).1,
{
    let s = settle_user_fee(h, f);
    let u = if s.fee_owed_usdc <= f.vault_usdc { s.fee_owed_usdc } else { f.vault_usdc };
    let v = if s.fee_owed_usdt <= f.vault_usdt { s.fee_owed_usdt } else { f.vault_usdt };
    (u, v)
}

/// A fee is shared in proportion to shares: a holder settled at the current
/// index, with `shares` of the `ts` outstanding, is owed between
/// `shares * fee / ts - 1` and `shares * fee / ts` more once `fee` is booked
/// on USDC, where no step of the accounting saturates.
pub proof fn lemma_fee_split_by_shares(f: FeeState, ts: u128, h: Holding, fee: u128)
    requires
        ts > 0,
        h.fee_idx_usdc == f.growth_usdc_e18,
        h.shares <= ACC_E18,
        fee * ACC_E18 <= u128::MAX,
        f.vault_usdc + fee <= u128::MAX,
        f.growth_usdc_e18 + growth_step(fee as int, ts as int) <= u128::MAX,
        h.shares * growth_step(fee as int, ts as int) <= u128::MAX,
        h.fee_owed_usdc + h.shares * growth_step(fee as int, ts as int) / (ACC_E18 as int) <= u128::MAX,
    ensures
        ({
            let got = settled(h, accrue_spec(f, ts, TokenId::USDC, fee)).fee_owed_usdc - h.fee_owed_usdc;
            let fair = h.shares * fee / (ts as int);
            fair - 1 <= got <= fair
        }),
{
    let e = ACC_E18 as int;
    let t = ts as int;
    let a = h.shares as int;
    let ff = fee as int;
    let q = growth_step(ff, t);
    assert(q == ff * e / t);
    let m = a * ff / t;
    let add = a * q / e;
    assert(0 <= q);
    // q * t <= F * E < (q + 1) * t
    assert(q * t <= ff * e && ff * e < (q + 1) * t) by (nonlinear_arith)
        requires
            q == ff * e / t,
            t > 0,
            ff * e >= 0,
    ;
    // m * t <= a * F < (m + 1) * t
    assert(m * t <= a * ff && a * ff < (m + 1) * t) by (nonlinear_arith)
        requires
            m == a * ff / t,
            t > 0,
            a * ff >= 0,
    ;
    assert(a * q < (m + 1) * e) by (nonlinear_arith)
        requires
            q * t <= ff * e,
            a * ff < (m + 1) * t,
            t > 0,
            a >= 0,
            e > 0,
    ;
    assert(a * (q + 1) * t >= a * ff * e) by (nonlinear_arith)
        requires
            ff * e < (q + 1) * t,
            a >= 0,
    ;
    assert(a * ff * e >= m * t * e) by (nonlinear_arith)
        requires
            m * t <= a * ff,
            e > 0,
    ;
    assert(a * (q + 1) >= m * e) by (nonlinear_arith)
        requires
            a * (q + 1) * t >= m * t * e,
            t > 0,
    ;
    assert(a * q >= m * e - a) by (nonlinear_arith)
        requires
            a * (q + 1) >= m * e,
    ;
    assert(m - 1 <= add <= m) by (nonlinear_arith)
        requires
            add == a * q / e,
            a * q < (m + 1) * e,
            a * q >= m * e - a,
            a <= e,
            e > 0,
            a * q >= 0,
    ;
    if fee > 0 {
        assert(accrue_spec(f, ts, TokenId::USDC, fee).growth_usdc_e18 == f.growth_usdc_e18 + q);
        if q > 0 && a > 0 {
            assert(sat_u128(a * q) == a * q);
        } else {
            assert(add == 0) by (nonlinear_arith)
                requires
                    add == a * q / e,
                    q == 0 || a == 0,
                    e > 0,
            ;
        }
    } else {
        assert(q == 0);
        assert(add == 0) by (nonlinear_arith)
            requires
                add == a * q / e,
                q == 0,
                e > 0,
        ;
    }
}

} // verus!
