//! StableSwap invariant math for a two-coin pool, in integers.
//!
//! The amplification is given scaled: `amp = A * A_PRECISION`. Every
//! intermediate value is a `BigUint`, so nothing overflows before the final
//! narrowing back to `u128`.
use crate::arith::{mul_sat, sat_sub, sat_u128};
use crate::bignum::{big_add, big_div, big_from, big_le, big_mul, big_sub, big_to_u128, big_value};
use num_bigint::BigUint;
use vstd::arithmetic::div_mod::lemma_hoist_over_denominator;
use vstd::prelude::*;

verus! {

/// Scale of the amplification parameter.
pub const A_PRECISION: u128 = 1_000_000;

/// Upper bound on solver iterations.
pub const MAX_ITERATIONS: u32 = 256;

/// Basis points in one whole.
pub const BPS_DENOMINATOR: u128 = 10_000;

/// `A * n^n` for `n = 2`, with the scale of `amp` divided out.
pub open spec fn ann_of(amp: int) -> int {
    amp * 4 / (A_PRECISION as int)
}

pub open spec fn within_one(a: int, b: int) -> bool {
    a <= b + 1 && b <= a + 1
}

/// The product term `D_P = D^3 / (n x0 * n x1)`, floored at each division.
pub open spec fn d_product(x0: int, x1: int, d: int) -> int {
    (d * d / (2 * x0)) * d / (2 * x1)
}

pub open spec fn d_denominator(ann: int, x0: int, x1: int, d: int) -> int {
    (ann - 1) * d + 3 * d_product(x0, x1, d)
}

/// One Newton step of the invariant: `D (ANN S + n D_P) / ((ANN - 1) D + (n + 1) D_P)`.
pub open spec fn d_step(ann: int, s: int, x0: int, x1: int, d: int) -> int {
    d * (ann * s + 2 * d_product(x0, x1, d)) / d_denominator(ann, x0, x1, d)
}

/// Runs at most `fuel` steps from `d`, stopping after the first step that
/// moves by at most one; a zero denominator makes the result 0.
pub open spec fn d_iterate(ann: int, s: int, x0: int, x1: int, d: int, fuel: nat) -> int
    decreases fuel,
{
    if fuel == 0 {
        d
    } else if d_denominator(ann, x0, x1, d) <= 0 {
        0
    } else {
        let next = d_step(ann, s, x0, x1, d);
        if within_one(next, d) || fuel == 1 {
            next
        } else {
            d_iterate(ann, s, x0, x1, next, (fuel - 1) as nat)
        }
    }
}

/// The invariant `D` of reserves `x0`, `x1`: 0 when a reserve is empty or
/// the amplification is too small to give `ANN >= 1`; saturated to `u128`.
pub open spec fn get_d_spec(amp: int, x0: int, x1: int) -> int {
    let s = sat_u128(x0 + x1);
    let ann = ann_of(amp);
    if s == 0 || x0 == 0 || x1 == 0 || ann == 0 {
        0
    } else {
        sat_u128(d_iterate(ann, s, x0, x1, s, MAX_ITERATIONS as nat))
    }
}

/// Runs at most `fuel` steps of `y <- (y^2 + c) / (2y + b - D)`, stopping
/// after the first step that moves by at most one; a denominator that is not
/// positive makes the result 0.
pub open spec fn y_iterate(c: int, b: int, d: int, y: int, fuel: nat) -> int
    decreases fuel,
{
    if fuel == 0 {
        y
    } else if 2 * y + b - d <= 0 {
        0
    } else {
        let next = (y * y + c) / (2 * y + b - d);
        if within_one(next, y) || fuel == 1 {
            next
        } else {
            y_iterate(c, b, d, next, (fuel - 1) as nat)
        }
    }
}

/// The balance `y` on the other side that keeps `D` for a new balance `x`;
/// 0 when there is no such value in `u128` or the inputs are degenerate.
pub open spec fn get_y_spec(amp: int, x: int, d: int) -> int {
    let ann = ann_of(amp);
    if x == 0 || ann == 0 {
        0
    } else {
        let c = d * d * d / (4 * x * ann);
        let b = x + d / ann;
        let y = y_iterate(c, b, d, d, MAX_ITERATIONS as nat);
        if y > u128::MAX { 0 } else { y }
    }
}

/// The input-side fee of a trade of `dx`: `dx * fee_bps / 10000`, saturated.
pub open spec fn fee_of(dx: int, fee_bps: int) -> int {
    sat_u128(dx * fee_bps / (BPS_DENOMINATOR as int))
}

/// The output of a trade of `dx` against reserves `(x_in, x_out)`, net of
/// the fee and of one unit of rounding against the trader.
pub open spec fn dy_of(amp: int, x_in: int, x_out: int, dx: int, fee_bps: int) -> int {
    let d0 = get_d_spec(amp, x_in, x_out);
    let x_new = sat_u128(x_in + sat_sub(dx, fee_of(dx, fee_bps)));
    let y_new = get_y_spec(amp, x_new, d0);
    if dx == 0 || d0 == 0 || y_new == 0 {
        0
    } else {
        sat_sub(sat_sub(x_out, y_new), 1)
    }
}

/// `(dy, fee)` as `quote_dx_to_dy` returns them.
pub open spec fn quote_spec(amp: int, x_in: int, x_out: int, dx: int, fee_bps: int) -> (int, int) {
    if dx == 0 {
        (0, 0)
    } else {
        (dy_of(amp, x_in, x_out, dx, fee_bps), fee_of(dx, fee_bps))
    }
}

fn ann(amp_scaled: u128) -> (r: BigUint)
    ensures
        big_value(r) == ann_of(amp_scaled as int),
{
    let a = big_from(amp_scaled);
    let four = big_from(4);
    let p = big_from(A_PRECISION);
    let m = big_mul(&a, &four);
    big_div(&m, &p)
}

fn near(a: &BigUint, b: &BigUint, one: &BigUint) -> (r: bool)
    requires
        big_value(*one) == 1,
    ensures
        r == within_one(big_value(*a) as int, big_value(*b) as int),
{
    let b1 = big_add(b, one);
    let a1 = big_add(a, one);
    big_le(a, &b1) && big_le(b, &a1)
}

/// The StableSwap invariant `D` of a two-coin pool with reserves `x0`, `x1`.
pub fn get_d(amp_scaled: u128, x0: u128, x1: u128) -> (r: u128)
    ensures
        r == get_d_spec(amp_scaled as int, x0 as int, x1 as int),
        (x0 == 0 || x1 == 0) ==> r == 0,
{
    let s = x0.saturating_add(x1);
    if s == 0 || x0 == 0 || x1 == 0 {
        return 0;
    }
    let ann_v = ann(amp_scaled);
    let zero = big_from(0);
    if big_le(&ann_v, &zero) {
        return 0;
    }
    let one = big_from(1);
    let two = big_from(2);
    let three = big_from(3);
    let s_b = big_from(s);
    let x0_b = big_from(x0);
    let x1_b = big_from(x1);
    let denom0 = big_mul(&x0_b, &two);
    let denom1 = big_mul(&x1_b, &two);
    let ann_minus_one = big_sub(&ann_v, &one);
    let ann_s = big_mul(&ann_v, &s_b);
    let ghost a = big_value(ann_v) as int;
    let ghost target = d_iterate(a, s as int, x0 as int, x1 as int, s as int, MAX_ITERATIONS as nat);
    let mut d = big_from(s);
    let mut i: u32 = 0;
    loop
        invariant
            i < MAX_ITERATIONS,
            a == ann_of(amp_scaled as int),
            a >= 1,
            big_value(one) == 1,
            big_value(two) == 2,
            big_value(three) == 3,
            big_value(zero) == 0,
            big_value(denom0) == 2 * x0,
            big_value(denom1) == 2 * x1,
            big_value(ann_minus_one) == a - 1,
            big_value(ann_s) == a * s,
            x0 > 0,
            x1 > 0,
            s as int == sat_u128(x0 + x1),
            target == d_iterate(a, s as int, x0 as int, x1 as int, s as int, MAX_ITERATIONS as nat),
            d_iterate(a, s as int, x0 as int, x1 as int, big_value(d) as int, (MAX_ITERATIONS - i) as nat) == target,
        decreases MAX_ITERATIONS - i,
    {
        let dd = big_mul(&d, &d);
        let p0 = big_div(&dd, &denom0);
        let p1 = big_mul(&p0, &d);
        let d_p = big_div(&p1, &denom1);
        let t1 = big_mul(&ann_minus_one, &d);
        let t2 = big_mul(&three, &d_p);
        let denominator = big_add(&t1, &t2);
        proof {
            assert(big_value(d_p) as int == d_product(x0 as int, x1 as int, big_value(d) as int));
            assert(big_value(denominator) as int == d_denominator(a, x0 as int, x1 as int, big_value(d) as int));
        }
        if big_le(&denominator, &zero) {
            return 0;
        }
        let dp2 = big_mul(&d_p, &two);
        let numerator = big_add(&ann_s, &dp2);
        let dn = big_mul(&d, &numerator);
        let next = big_div(&dn, &denominator);
        proof {
            assert(big_value(next) as int == d_step(a, s as int, x0 as int, x1 as int, big_value(d) as int));
        }
        if near(&next, &d, &one) || i == MAX_ITERATIONS - 1 {
            return match big_to_u128(&next) {
                Some(v) => v,
                None => u128::MAX,
            };
        }
        d = next;
        i = i + 1;
    }
}

/// Solves for the other side's balance given a new balance `x_i_new` and
/// the invariant `d`.
pub fn get_y(amp_scaled: u128, x_i_new: u128, d: u128) -> (r: u128)
    ensures
        r == get_y_spec(amp_scaled as int, x_i_new as int, d as int),
        x_i_new == 0 ==> r == 0,
{
    if x_i_new == 0 {
        return 0;
    }
    let ann_v = ann(amp_scaled);
    let zero = big_from(0);
    if big_le(&ann_v, &zero) {
        return 0;
    }
    let one = big_from(1);
    let two = big_from(2);
    let four = big_from(4);
    let d_b = big_from(d);
    let x_b = big_from(x_i_new);
    let d2 = big_mul(&d_b, &d_b);
    let d3 = big_mul(&d2, &d_b);
    let k0 = big_mul(&four, &x_b);
    let k = big_mul(&k0, &ann_v);
    proof {
        let xv = x_i_new as int;
        let av = big_value(ann_v) as int;
        assert(4 * xv * av > 0) by (nonlinear_arith)
            requires
                xv > 0,
                av >= 1,
        ;
    }
    let c = big_div(&d3, &k);
    let d_over_ann = big_div(&d_b, &ann_v);
    let b_term = big_add(&x_b, &d_over_ann);
    let ghost a = big_value(ann_v) as int;
    let ghost cv = big_value(c) as int;
    let ghost bv = big_value(b_term) as int;
    proof {
        assert(cv == (d as int) * (d as int) * (d as int) / (4 * (x_i_new as int) * a));
    }
    let ghost target = y_iterate(cv, bv, d as int, d as int, MAX_ITERATIONS as nat);
    let mut y = big_from(d);
    let mut i: u32 = 0;
    loop
        invariant
            i < MAX_ITERATIONS,
            big_value(one) == 1,
            big_value(two) == 2,
            big_value(d_b) == d,
            big_value(c) == cv,
            big_value(b_term) == bv,
            x_i_new > 0,
            a == ann_of(amp_scaled as int),
            a >= 1,
            cv == (d as int) * (d as int) * (d as int) / (4 * (x_i_new as int) * a),
            bv == x_i_new + (d as int) / a,
            target == y_iterate(cv, bv, d as int, d as int, MAX_ITERATIONS as nat),
            y_iterate(cv, bv, d as int, big_value(y) as int, (MAX_ITERATIONS - i) as nat) == target,
        decreases MAX_ITERATIONS - i,
    {
        let y2 = big_mul(&y, &y);
        let numerator = big_add(&y2, &c);
        let ty = big_mul(&two, &y);
        let tb = big_add(&ty, &b_term);
        if big_le(&tb, &d_b) {
            return 0;
        }
        let denominator = big_sub(&tb, &d_b);
        let next = big_div(&numerator, &denominator);
        if near(&next, &y, &one) || i == MAX_ITERATIONS - 1 {
            return match big_to_u128(&next) {
                Some(v) => v,
                None => 0,
            };
        }
        y = next;
        i = i + 1;
    }
}

/// `dx * fee_bps / 10000`, saturated, computed without overflow.
pub fn fee_amount(dx: u128, fee_bps: u32) -> (r: u128)
    ensures
        r == fee_of(dx as int, fee_bps as int),
{
    let f = fee_bps as u128;
    let q = dx / BPS_DENOMINATOR;
    let rem = dx % BPS_DENOMINATOR;
    proof {
        let (dxi, fi, qi, ri) = (dx as int, f as int, q as int, rem as int);
        assert(dxi * fi == ri * fi + (qi * fi) * 10000) by (nonlinear_arith)
            requires
                dxi == 10000 * qi + ri,
        ;
        lemma_hoist_over_denominator(ri * fi, qi * fi, 10000);
        assert(ri * fi <= 10000 * fi) by (nonlinear_arith)
            requires
                0 <= ri < 10000,
                fi >= 0,
        ;
        assert(qi * fi <= dxi * fi / 10000);
    }
    let low = rem * f / BPS_DENOMINATOR;
    let high = mul_sat(q, f);
    high.saturating_add(low)
}

/// Quotes a trade of `dx` into a pool with reserves `(x_in, x_out)`:
/// returns `(dy, fee)`, where `fee` is the input-side fee and `dy` the
/// output, rounded one unit against the trader; `dy` is 0 when no valid
/// quote exists.
pub fn quote_dx_to_dy(amp_scaled: u128, x_in: u128, x_out: u128, dx: u128, fee_bps: u32) -> (r: (u128, u128))
    ensures
        r.0 == quote_spec(amp_scaled as int, x_in as int, x_out as int, dx as int, fee_bps as int).0,
        r.1 == quote_spec(amp_scaled as int, x_in as int, x_out as int, dx as int, fee_bps as int).1,
        r.0 < x_out || r.0 == 0,
        dx == 0 ==> r == (0u128, 0u128),
{
    if dx == 0 {
        return (0, 0);
    }
    let fee_in = fee_amount(dx, fee_bps);
    let dx_net = dx.saturating_sub(fee_in);
    let d0 = get_d(amp_scaled, x_in, x_out);
    if d0 == 0 {
        return (0, fee_in);
    }
    let x_new = x_in.saturating_add(dx_net);
    let y_new = get_y(amp_scaled, x_new, d0);
    if y_new == 0 {
        return (0, fee_in);
    }
    let mut dy = x_out.saturating_sub(y_new);
    if dy > 0 {
        dy = dy - 1;
    }
    (dy, fee_in)
}

} // verus!
