use vaultpair::error::Error;
use vaultpair::events::{get_estimated_24h_volume, push, Event};
use vaultpair::pool::Pool;
use vaultpair::scale::{ext_to_int_e6, int_e6_to_ext, pow10u};
use vaultpair::state::State;
use vaultpair::stats::{get_stats_snapshot, RollingStats, HOURS_RING};
use vaultpair::swap::{plan_live_swap, quote};
use vaultpair::types::TokenId;

const NOW: u64 = 1_700_000_000;

#[test]
fn powers_of_ten_saturate() {
    assert_eq!(pow10u(0), 1);
    assert_eq!(pow10u(6), 1_000_000);
    assert_eq!(pow10u(38), 10u128.pow(38));
    assert_eq!(pow10u(39), u128::MAX);
}

#[test]
fn decimal_scaling() {
    assert_eq!(ext_to_int_e6(123_456_789, 8), 1_234_567);
    assert_eq!(ext_to_int_e6(1_234_567, 6), 1_234_567);
    assert_eq!(ext_to_int_e6(5, 2), 50_000);
    assert_eq!(ext_to_int_e6(u128::MAX, 0), u128::MAX);
    assert_eq!(int_e6_to_ext(1_234_567, 8), 123_456_700);
    assert_eq!(int_e6_to_ext(1_234_567, 2), 123);
    assert_eq!(int_e6_to_ext(7, 6), 7);
}

#[test]
fn deposit_plan_uses_only_matching_amounts() {
    let mut p = Pool::default();
    assert_eq!(p.compute_add_use_amounts(100, 50), (100, 50, 150));
    p.seed_pool_demo(1_000, 2_000);
    assert_eq!(p.compute_add_use_amounts(100, 500), (100, 200, 300));
    assert_eq!(p.compute_add_use_amounts(0, 500), (0, 0, 0));
    assert_eq!(p.get_tvl_e6(), 3_000);
}

#[test]
fn stats_record_and_sum() {
    let mut st = RollingStats::with_now(NOW);
    assert_eq!(st.buckets.len(), HOURS_RING);
    assert_eq!(st.base_hour, NOW / 3600 - 167);
    st.record_swap(NOW, 100, 50, 3);
    st.record_swap(NOW, 10, 10, 1);
    st.record_swap(NOW - 3 * 3600, 40, 0, 2);
    assert_eq!(st.sum_last_hours(NOW, 1), (85, 4, 2));
    assert_eq!(st.sum_last_hours(NOW, 24), (105, 6, 3));
    let s = st.series(NOW, 4);
    assert_eq!(s.len(), 4);
    assert_eq!(s[0].volume_e6, 85);
    assert_eq!(s[3].volume_e6, 20);
    assert_eq!(s[3].ts_hour, NOW / 3600 - 3);
    assert_eq!(st.series(NOW, 1_000).len(), HOURS_RING);
}

#[test]
fn stats_reset_after_a_long_gap() {
    let mut st = RollingStats::with_now(NOW);
    st.record_swap(NOW, 100, 100, 1);
    let later = NOW + 400 * 3600;
    st.record_swap(later, 2, 2, 1);
    assert_eq!(st.base_hour, later / 3600 - 167);
    assert_eq!(st.sum_last_hours(later, 168), (2, 1, 1));
}

#[test]
fn snapshot_annualises_fees() {
    let mut st = RollingStats::with_now(NOW);
    st.record_swap(NOW, 1_000, 1_000, 10);
    let mut p = Pool::default();
    p.seed_pool_demo(50_000, 50_000);
    let snap = get_stats_snapshot(&st, NOW, &p);
    assert_eq!(snap.tvl_e6, 100_000);
    assert_eq!(snap.vol_24h_e6, 1_000);
    assert_eq!(snap.fee_24h_e6, 10);
    assert_eq!(snap.swaps_24h, 1);
    assert_eq!(snap.apy_24h_bp, 365);
    let empty = Pool::default();
    assert_eq!(get_stats_snapshot(&st, NOW, &empty).apy_24h_bp, 0);
}

#[test]
fn volume_estimate_scans_recent_swaps() {
    let mut log = Vec::new();
    push(&mut log, Event::Swap { who: "a".to_string(), dx_e6: 1_000, dy_e6: 1_000, ts: NOW - 7_200 });
    push(&mut log, Event::Swap { who: "a".to_string(), dx_e6: 100, dy_e6: 100, ts: NOW - 600 });
    push(&mut log, Event::Deposit { who: "a".to_string(), token: TokenId::USDC, amount: 5, ts: NOW - 10 });
    push(&mut log, Event::Swap { who: "b".to_string(), dx_e6: 300, dy_e6: 100, ts: NOW - 60 });
    assert_eq!(get_estimated_24h_volume(&log, NOW, 60), 300 * 24);
    assert_eq!(get_estimated_24h_volume(&log, NOW, 0), 200 * 1_440);
    assert_eq!(get_estimated_24h_volume(&log, NOW, 10_000), 1_300 * 12);
}

#[test]
fn live_swap_plan_matches_quote() {
    let p = Pool::default();
    let r = plan_live_swap(&p, 1_000_000, 2_000_000, TokenId::USDT, TokenId::USDC, 10_000, 0);
    let mut live = p;
    live.reserve_usdc = 1_000_000;
    live.reserve_usdt = 2_000_000;
    let q = quote(&live, TokenId::USDT, TokenId::USDC, 10_000);
    assert_eq!(r, Ok((q.dy_e6, q.fee_e6)));
    assert_eq!(plan_live_swap(&p, 1_000, 1_000, TokenId::USDC, TokenId::USDT, 0, 0), Err(Error::InvalidInput));
    assert_eq!(plan_live_swap(&p, 1_000, 1_000, TokenId::ICP, TokenId::USDT, 5, 0), Err(Error::InvalidInput));
    assert_eq!(plan_live_swap(&p, 0, 1_000, TokenId::USDC, TokenId::USDT, 5, 0), Err(Error::InsufficientLiquidity));
    assert_eq!(plan_live_swap(&p, 1_000_000, 1_000_000, TokenId::USDC, TokenId::USDT, 1_000, 1_000), Err(Error::SlippageExceeded));
}

#[test]
fn reconcile_rescales_to_live_total() {
    let mut s = State::new();
    let a = "alice".to_string();
    s.set_available(&a, TokenId::USDC, 100);
    s.set_available(&a, TokenId::USDT, 100);
    s.add_liquidity(&a, 100, 100).unwrap();
    assert_eq!(s.admin_reconcile_pool_from_live(150, 250), 400);
    assert_eq!(s.get_user_position(&a), 400);
    assert_eq!(s.pool.reserve_usdc, 150);
    assert_eq!(s.pool.reserve_usdt, 250);
    assert_eq!(s.admin_reconcile_from_internal(), 400);
    assert_eq!(s.pool.total_shares, 400);
}

#[test]
fn live_swap_books_fee_and_reserves() {
    let mut s = State::new();
    s.pool.seed_pool_demo(1_000, 1_000);
    s.apply_live_swap(TokenId::USDC, 100, 90, 1);
    assert_eq!(s.pool.reserve_usdc, 1_099);
    assert_eq!(s.pool.reserve_usdt, 910);
    assert_eq!(s.fees.vault_usdc, 1);
    s.debit_reserves(99, 2_000);
    assert_eq!(s.pool.reserve_usdc, 1_000);
    assert_eq!(s.pool.reserve_usdt, 0);
}

#[test]
fn state_event_log() {
    let mut s = State::new();
    s.push_event(Event::Withdraw { who: "a".to_string(), token: TokenId::USDT, amount: 3, ts: 9 });
    assert_eq!(s.events.len(), 1);
}
