use vaultpair::pool::Pool;
use vaultpair::stableswap::quote_dx_to_dy;
use vaultpair::swap::{quote, quote_exact_out};
use vaultpair::types::{QuoteOut, TokenId};

const E6: u128 = 1_000_000;

fn pool(ru: u128, rv: u128) -> Pool {
    let mut p = Pool::default();
    p.reserve_usdc = ru;
    p.reserve_usdt = rv;
    p.total_shares = ru + rv;
    p
}

fn zero() -> QuoteOut {
    QuoteOut { dy_e6: 0, fee_e6: 0, price_e6: E6 }
}

#[test]
fn quote_uses_scaled_amplification_and_direction() {
    let p = pool(10_000 * E6, 20_000 * E6);
    let q = quote(&p, TokenId::USDC, TokenId::USDT, 1_000 * E6);
    let (dy, fee) = quote_dx_to_dy(100 * E6, 10_000 * E6, 20_000 * E6, 1_000 * E6, 10);
    assert_eq!(q.dy_e6, dy);
    assert_eq!(q.fee_e6, fee);
    assert_eq!(fee, E6);
    assert_eq!(q.price_e6, dy * E6 / (1_000 * E6));
    let r = quote(&p, TokenId::USDT, TokenId::USDC, 1_000 * E6);
    let (dy2, _) = quote_dx_to_dy(100 * E6, 20_000 * E6, 10_000 * E6, 1_000 * E6, 10);
    assert_eq!(r.dy_e6, dy2);
}

#[test]
fn quote_degrades_to_zero() {
    let p = pool(10_000 * E6, 10_000 * E6);
    assert_eq!(quote(&p, TokenId::USDC, TokenId::USDT, 0), zero());
    assert_eq!(quote(&p, TokenId::USDC, TokenId::USDC, 5), zero());
    assert_eq!(quote(&p, TokenId::ICP, TokenId::USDT, 5), zero());
    let empty = pool(0, 10_000 * E6);
    assert_eq!(quote(&empty, TokenId::USDC, TokenId::USDT, 5 * E6), zero());
}

#[test]
fn exact_out_finds_the_smallest_input() {
    let p = pool(10_000 * E6, 10_000 * E6);
    let target = 500 * E6;
    let q = quote_exact_out(&p, TokenId::USDC, TokenId::USDT, target);
    let dx = q.dy_e6;
    assert!(dx > 0);
    assert!(quote(&p, TokenId::USDC, TokenId::USDT, dx).dy_e6 >= target);
    assert!(quote(&p, TokenId::USDC, TokenId::USDT, dx - 1).dy_e6 < target);
    assert_eq!(q.fee_e6, dx * 10 / 10_000);
}

#[test]
fn exact_out_degrades_to_zero() {
    let p = pool(10_000 * E6, 10_000 * E6);
    assert_eq!(quote_exact_out(&p, TokenId::USDC, TokenId::USDT, 0), zero());
    assert_eq!(quote_exact_out(&p, TokenId::BOB, TokenId::USDT, 5), zero());
    assert_eq!(quote_exact_out(&p, TokenId::USDC, TokenId::USDT, 10_000 * E6), zero());
}

#[test]
fn seeded_pool_info() {
    let mut p = Pool::default();
    let info = p.seed_pool_demo(10_000, 20_000);
    assert_eq!(info.reserve_usdc, 10_000);
    assert_eq!(info.reserve_usdt, 20_000);
    assert_eq!(info.total_shares, 30_000);
    assert_eq!(info.a_amp, 100);
    assert_eq!(info.fee_bps, 10);
    assert_eq!(p.get_pool_info(), info);
}
