use vaultpair::stableswap::{fee_amount, get_d, get_y, quote_dx_to_dy, A_PRECISION};

const E6: u128 = 1_000_000;

#[test]
fn large_amplification_quote_matches_curve() {
    let amp = 5_000 * A_PRECISION;
    let x0 = 10_000 * E6;
    let x1 = 10_000 * E6;
    let dx = 1_000 * E6;

    let (dy, fee) = quote_dx_to_dy(amp, x0, x1, dx, 30);
    assert_eq!(fee, 3 * E6);
    // The curve through D = 2e10 gives y = 9_003_010_038.76 at x = 10_997e6.
    assert_eq!(dy, 996_989_961);
    assert!(dy >= dx - fee - 11_000);
}

#[test]
fn more_slippage_when_a_small() {
    let x0 = 10_000 * E6;
    let x1 = 10_000 * E6;
    let dx = 1_000 * E6;

    let (dy_small_a, _) = quote_dx_to_dy(10 * A_PRECISION, x0, x1, dx, 30);
    let (dy_large_a, _) = quote_dx_to_dy(5_000 * A_PRECISION, x0, x1, dx, 30);
    assert!(dy_small_a < dy_large_a);
}

#[test]
fn d_is_almost_constant_around_swap() {
    let amp = 100 * A_PRECISION;
    let x0 = 50_000 * E6;
    let x1 = 50_000 * E6;
    let dx = 5_000 * E6;

    let d_before = get_d(amp, x0, x1);
    let (dy, _fee) = quote_dx_to_dy(amp, x0, x1, dx, 0);

    let d_after = get_d(amp, x0 + dx, x1 - dy);
    let diff = if d_after > d_before { d_after - d_before } else { d_before - d_after };
    assert!(diff <= 10);
}

#[test]
fn monotonic_dy_wrt_dx() {
    let amp = 500 * A_PRECISION;
    let x0 = 50_000 * E6;
    let x1 = 50_000 * E6;
    let fee_bps = 30;

    let dxs = [1, 10, 100, 1_000, 5_000, 10_000].map(|v| v as u128 * E6);
    let mut last_dy = 0u128;
    for dx in dxs {
        let (dy, _fee) = quote_dx_to_dy(amp, x0, x1, dx, fee_bps);
        assert!(dy >= last_dy, "non-decreasing: dx={dx}, dy={dy}, last={last_dy}");
        last_dy = dy;
    }
}

fn xyk_quote(ru: u128, rv: u128, dx: u128, fee_bps: u32) -> (u128, u128) {
    let fee = dx * (fee_bps as u128) / 10_000u128;
    let dx_net = dx.saturating_sub(fee);
    if ru == 0 || rv == 0 || dx_net == 0 {
        return (0, fee);
    }
    let mut dy = rv.saturating_mul(dx_net) / (ru.saturating_add(dx_net));
    if dy > 0 {
        dy = dy.saturating_sub(1);
    }
    (dy, fee)
}

#[test]
fn small_a_bounded_between_xyk_and_constant_sum() {
    let amp = 1 * A_PRECISION;
    let x0 = 10_000 * E6;
    let x1 = 10_000 * E6;
    let dx = 2_000 * E6;
    let fee_bps = 10;

    let (dy_stable, fee) = quote_dx_to_dy(amp, x0, x1, dx, fee_bps);
    let (dy_xyk, _f2) = xyk_quote(x0, x1, dx, fee_bps);
    let dy_cs = dx - fee;

    assert!(dy_xyk <= dy_stable, "should not be worse than XYK");
    assert!(dy_stable <= dy_cs, "should not exceed constant-sum");
}

#[test]
fn d_of_balanced_pool_is_the_sum() {
    assert_eq!(get_d(100 * A_PRECISION, 1_000 * E6, 1_000 * E6), 2_000 * E6);
    assert_eq!(get_d(100 * A_PRECISION, 7, 7), 14);
}

#[test]
fn d_is_zero_when_a_reserve_is_empty() {
    assert_eq!(get_d(100 * A_PRECISION, 0, 1_000), 0);
    assert_eq!(get_d(100 * A_PRECISION, 1_000, 0), 0);
    assert_eq!(get_d(100 * A_PRECISION, 0, 0), 0);
}

#[test]
fn d_is_zero_when_amplification_is_too_small() {
    assert_eq!(get_d(100_000, 1_000, 1_000), 0);
}

#[test]
fn d_grows_with_either_reserve() {
    let amp = 100 * A_PRECISION;
    let base = get_d(amp, 10_000 * E6, 10_000 * E6);
    let more_x0 = get_d(amp, 11_000 * E6, 10_000 * E6);
    let more_x1 = get_d(amp, 10_000 * E6, 12_000 * E6);
    assert!(more_x0 >= base);
    assert!(more_x1 >= base);
    assert!(more_x0 > 20_000 * E6 && more_x0 < 21_000 * E6);
}

#[test]
fn y_of_balanced_pool_is_the_other_reserve() {
    let amp = 100 * A_PRECISION;
    let d = get_d(amp, 1_000 * E6, 1_000 * E6);
    let y = get_y(amp, 1_000 * E6, d);
    assert!(y >= 1_000 * E6 - 1 && y <= 1_000 * E6 + 1);
    assert_eq!(get_y(amp, 0, d), 0);
}

#[test]
fn quote_of_zero_input_is_zero() {
    assert_eq!(quote_dx_to_dy(100 * A_PRECISION, 1_000, 1_000, 0, 30), (0, 0));
}

#[test]
fn quote_on_empty_reserve_keeps_the_fee() {
    assert_eq!(quote_dx_to_dy(100 * A_PRECISION, 0, 1_000 * E6, 10_000, 30), (0, 30));
}

#[test]
fn quote_never_exceeds_output_reserve() {
    let (dy, _) = quote_dx_to_dy(100 * A_PRECISION, 1_000, 1_000, 1_000_000_000, 0);
    assert!(dy < 1_000);
}

#[test]
fn fee_is_floor_of_basis_points() {
    assert_eq!(fee_amount(10_000, 30), 30);
    assert_eq!(fee_amount(9_999, 30), 29);
    assert_eq!(fee_amount(0, 30), 0);
    assert_eq!(fee_amount(u128::MAX, 10_000), u128::MAX);
    assert_eq!(fee_amount(u128::MAX, 10), u128::MAX / 1_000);
    assert_eq!(fee_amount(u128::MAX, u32::MAX), u128::MAX);
}

#[test]
fn higher_amplification_gives_more_output() {
    let x = 10_000 * E6;
    let dx = 2_000 * E6;
    let mut last = 0u128;
    for a in [1u128, 10, 100, 1_000, 5_000] {
        let (dy, fee) = quote_dx_to_dy(a * A_PRECISION, x, x, dx, 10);
        assert!(dy >= last);
        assert!(dy <= dx - fee);
        last = dy;
    }
}

#[test]
fn d_at_largest_reserves_saturates() {
    assert_eq!(get_d(100 * A_PRECISION, u128::MAX, u128::MAX), u128::MAX);
    assert_eq!(get_d(100 * A_PRECISION, u128::MAX, 1), 570_076_262_269_115_139_395_131_006);
}
