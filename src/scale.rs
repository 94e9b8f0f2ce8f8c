//! Conversion between a token's native decimals and the internal scale of
//! six decimal places: exact on expansion (saturated), floored on shrinking.
use crate::arith::{mul_sat, sat_u128};
use vstd::prelude::*;

verus! {

/// Decimal places of the internal scale.
pub const INTERNAL_DECIMALS: u8 = 6;

pub open spec fn pow10(n: nat) -> int
    decreases n,
{
    if n == 0 { 1 } else { 10 * pow10((n - 1) as nat) }
}

proof fn lemma_pow10_pos(n: nat)
    ensures
        pow10(n) >= 1,
    decreases n,
{
    if n > 0 {
        lemma_pow10_pos((n - 1) as nat);
    }
}

/// `10^n`, saturated at `u128::MAX`.
pub fn pow10u(n: u32) -> (r: u128)
    ensures
        r == sat_u128(pow10(n as nat)),
        r >= 1,
{
    let mut acc: u128 = 1;
    let mut i: u32 = 0;
    while i < n
        invariant
            i <= n,
            acc == sat_u128(pow10(i as nat)),
            acc >= 1,
        decreases n - i,
    {
        proof {
            lemma_pow10_pos(i as nat);
        }
        acc = mul_sat(acc, 10);
        i = i + 1;
    }
    acc
}

/// An amount in a token's native units at the internal scale.
pub open spec fn ext_to_int_spec(x: int, dec: int) -> int {
    if dec >= INTERNAL_DECIMALS {
        x / sat_u128(pow10((dec - INTERNAL_DECIMALS) as nat))
    } else {
        sat_u128(x * sat_u128(pow10((INTERNAL_DECIMALS - dec) as nat)))
    }
}

/// An amount at the internal scale in a token's native units.
pub open spec fn int_to_ext_spec(x: int, dec: int) -> int {
    if dec >= INTERNAL_DECIMALS {
        sat_u128(x * sat_u128(pow10((dec - INTERNAL_DECIMALS) as nat)))
    } else {
        x / sat_u128(pow10((INTERNAL_DECIMALS - dec) as nat))
    }
}

/// Native units of a token with `dec` decimals to the internal scale.
pub fn ext_to_int_e6(amount_ext: u128, dec: u8) -> (r: u128)
    ensures
        r == ext_to_int_spec(amount_ext as int, dec as int),
{
    if dec >= INTERNAL_DECIMALS {
        amount_ext / pow10u((dec - INTERNAL_DECIMALS) as u32)
    } else {
        mul_sat(amount_ext, pow10u((INTERNAL_DECIMALS - dec) as u32))
    }
}

/// The internal scale to native units of a token with `dec` decimals.
pub fn int_e6_to_ext(amount_e6: u128, dec: u8) -> (r: u128)
    ensures
        r == int_to_ext_spec(amount_e6 as int, dec as int),
{
    if dec >= INTERNAL_DECIMALS {
        mul_sat(amount_e6, pow10u((dec - INTERNAL_DECIMALS) as u32))
    } else {
        amount_e6 / pow10u((INTERNAL_DECIMALS - dec) as u32)
    }
}

} // verus!
