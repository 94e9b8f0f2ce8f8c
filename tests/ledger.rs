use vaultpair::error::Error;
use vaultpair::state::State;
use vaultpair::types::TokenId;

fn funded(state: &mut State, who: &str, usdc: u128, usdt: u128) -> String {
    let w = who.to_string();
    state.set_available(&w, TokenId::USDC, usdc);
    state.set_available(&w, TokenId::USDT, usdt);
    w
}

#[test]
fn liquidity_round_trip_on_seeded_pool() {
    let mut s = State::new();
    s.pool.seed_pool_demo(10_000, 10_000);
    let a = funded(&mut s, "alice", 1_000, 1_000);
    assert_eq!(s.add_liquidity(&a, 1_000, 1_000), Ok(2_000));
    assert_eq!(s.get_user_position(&a), 2_000);
    assert_eq!(s.available(&a, TokenId::USDC), 0);
    assert_eq!(s.remove_liquidity(&a, 2_000), Ok((1_000, 1_000)));
    assert_eq!(s.get_user_position(&a), 0);
    assert_eq!(s.available(&a, TokenId::USDC), 1_000);
    assert_eq!(s.available(&a, TokenId::USDT), 1_000);
    assert_eq!(s.pool.reserve_usdc, 10_000);
    assert_eq!(s.pool.total_shares, 20_000);
}

#[test]
fn first_deposit_mints_the_sum() {
    let mut s = State::new();
    let a = funded(&mut s, "alice", 1_000, 1_000);
    assert_eq!(s.add_liquidity(&a, 1_000, 1_000), Ok(2_000));
    assert_eq!(s.pool.total_shares, 2_000);
}

#[test]
fn later_deposit_mints_the_smaller_side() {
    let mut s = State::new();
    let a = funded(&mut s, "alice", 1_000, 1_000);
    s.add_liquidity(&a, 1_000, 1_000).unwrap();
    let b = funded(&mut s, "bob", 500, 100);
    assert_eq!(s.add_liquidity(&b, 500, 100), Ok(200));
}

#[test]
fn single_holder_captures_whole_fee() {
    let mut s = State::new();
    let a = funded(&mut s, "alice", 500, 500);
    assert_eq!(s.add_liquidity(&a, 500, 500), Ok(1_000));
    assert_eq!(s.preview_claim_fee(&a), Ok((0, 0)));
    s.pool.fee_bps = 3_000;
    let t = funded(&mut s, "trader", 100, 0);
    let dy = s.swap(&t, TokenId::USDC, TokenId::USDT, 100, 0).unwrap();
    assert!(dy > 60 && dy < 70);
    assert_eq!(s.fees.vault_usdc, 30);
    assert_eq!(s.preview_claim_fee(&a), Ok((30, 0)));
}

#[test]
fn two_holders_split_fee_by_shares() {
    let mut s = State::new();
    let a = funded(&mut s, "alice", 125, 125);
    let b = funded(&mut s, "bob", 375, 375);
    assert_eq!(s.add_liquidity(&a, 125, 125), Ok(250));
    assert_eq!(s.add_liquidity(&b, 375, 375), Ok(750));
    s.accrue_swap_fee(TokenId::USDC, 30);
    let (ua, _) = s.preview_claim_fee(&a).unwrap();
    let (ub, _) = s.preview_claim_fee(&b).unwrap();
    assert_eq!(ua, 7);
    assert_eq!(ub, 22);
}

#[test]
fn second_claim_returns_nothing() {
    let mut s = State::new();
    let a = funded(&mut s, "alice", 500, 500);
    s.add_liquidity(&a, 500, 500).unwrap();
    s.accrue_swap_fee(TokenId::USDT, 40);
    assert_eq!(s.claim_fee(&a), Ok((0, 40)));
    assert_eq!(s.fees.vault_usdt, 0);
    assert_eq!(s.available(&a, TokenId::USDT), 40);
    assert_eq!(s.claim_fee(&a), Ok((0, 0)));
}

#[test]
fn fee_without_holders_stays_in_vault() {
    let mut s = State::new();
    s.accrue_swap_fee(TokenId::USDC, 25);
    assert_eq!(s.fees.vault_usdc, 25);
    assert_eq!(s.fees.growth_usdc_e18, 0);
    s.accrue_swap_fee(TokenId::ICP, 25);
    assert_eq!(s.fees.vault_usdc, 25);
}

#[test]
fn deposit_after_fee_earns_nothing_retroactively() {
    let mut s = State::new();
    let a = funded(&mut s, "alice", 500, 500);
    s.add_liquidity(&a, 500, 500).unwrap();
    s.accrue_swap_fee(TokenId::USDC, 100);
    let b = funded(&mut s, "bob", 500, 500);
    s.add_liquidity(&b, 500, 500).unwrap();
    assert_eq!(s.preview_claim_fee(&b), Ok((0, 0)));
    assert_eq!(s.preview_claim_fee(&a), Ok((100, 0)));
}

#[test]
fn rescale_keeps_proportions() {
    let mut s = State::new();
    let a = funded(&mut s, "alice", 50, 50);
    let b = funded(&mut s, "bob", 150, 150);
    assert_eq!(s.add_liquidity(&a, 50, 50), Ok(100));
    assert_eq!(s.add_liquidity(&b, 150, 150), Ok(300));
    s.admin_rescale_all_shares(800);
    assert_eq!(s.get_user_position(&a), 200);
    assert_eq!(s.get_user_position(&b), 600);
    assert_eq!(s.pool.total_shares, 800);
}

#[test]
fn rescale_without_holders_sets_total() {
    let mut s = State::new();
    s.admin_rescale_all_shares(500);
    assert_eq!(s.pool.total_shares, 500);
}

#[test]
fn add_liquidity_errors() {
    let mut s = State::new();
    let a = funded(&mut s, "alice", 100, 100);
    assert_eq!(s.add_liquidity(&a, 0, 0), Err(Error::InvalidInput));
    assert_eq!(s.add_liquidity(&a, 101, 0), Err(Error::BalanceTooLow));
    s.pool.seed_pool_demo(1_000_000, 1_000_000);
    s.pool.total_shares = 1;
    assert_eq!(s.add_liquidity(&a, 1, 1), Err(Error::InsufficientLiquidity));
    assert_eq!(s.get_user_position(&a), 0);
    assert_eq!(s.available(&a, TokenId::USDC), 100);
}

#[test]
fn remove_liquidity_errors() {
    let mut s = State::new();
    let a = funded(&mut s, "alice", 100, 100);
    s.add_liquidity(&a, 100, 100).unwrap();
    assert_eq!(s.remove_liquidity(&a, 0), Err(Error::InvalidInput));
    assert_eq!(s.remove_liquidity(&a, 201), Err(Error::BalanceTooLow));
    s.pool.total_shares = 0;
    assert_eq!(s.remove_liquidity(&a, 10), Err(Error::DInvariantBroken));
}

#[test]
fn swap_errors() {
    let mut s = State::new();
    let t = funded(&mut s, "trader", 1_000, 0);
    assert_eq!(s.swap(&t, TokenId::USDC, TokenId::USDT, 10, 0), Err(Error::InsufficientLiquidity));
    let a = funded(&mut s, "alice", 1_000_000, 1_000_000);
    s.add_liquidity(&a, 1_000_000, 1_000_000).unwrap();
    assert_eq!(s.swap(&t, TokenId::USDC, TokenId::USDC, 10, 0), Err(Error::InvalidInput));
    assert_eq!(s.swap(&t, TokenId::USDC, TokenId::USDT, 0, 0), Err(Error::InvalidInput));
    assert_eq!(s.swap(&t, TokenId::USDC, TokenId::USDT, 1_001, 0), Err(Error::BalanceTooLow));
    assert_eq!(s.swap(&t, TokenId::USDC, TokenId::USDT, 1_000, 1_000), Err(Error::SlippageExceeded));
    assert_eq!(s.available(&t, TokenId::USDC), 1_000);
}

#[test]
fn swap_moves_balances_and_reserves() {
    let mut s = State::new();
    let a = funded(&mut s, "alice", 1_000_000, 1_000_000);
    s.add_liquidity(&a, 1_000_000, 1_000_000).unwrap();
    let t = funded(&mut s, "trader", 0, 10_000);
    let dy = s.swap(&t, TokenId::USDT, TokenId::USDC, 10_000, 9_000).unwrap();
    assert!(dy >= 9_000 && dy < 10_000);
    assert_eq!(s.available(&t, TokenId::USDT), 0);
    assert_eq!(s.available(&t, TokenId::USDC), dy);
    assert_eq!(s.pool.reserve_usdt, 1_000_000 + 10_000 - 10);
    assert_eq!(s.pool.reserve_usdc, 1_000_000 - dy);
    assert_eq!(s.fees.vault_usdt, 10);
}

#[test]
fn shares_sum_to_total_through_deposits_and_withdrawals() {
    let mut s = State::new();
    let a = funded(&mut s, "alice", 1_000, 3_000);
    let b = funded(&mut s, "bob", 700, 700);
    s.add_liquidity(&a, 1_000, 3_000).unwrap();
    s.add_liquidity(&b, 700, 700).unwrap();
    s.remove_liquidity(&a, 1_234).unwrap();
    let t = funded(&mut s, "trader", 500, 0);
    s.swap(&t, TokenId::USDC, TokenId::USDT, 500, 0).unwrap();
    s.remove_liquidity(&b, 100).unwrap();
    assert_eq!(s.get_user_position(&a) + s.get_user_position(&b), s.pool.total_shares);
}
