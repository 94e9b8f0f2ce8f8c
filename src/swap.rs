//! The quote engine: direction, amplification, and exact-input and
//! exact-output quotes against the pool's reserves.
use crate::arith::{mul_sat, sat_u128};
use crate::pool::Pool;
use crate::stableswap::{dy_of, fee_of, quote_dx_to_dy, A_PRECISION};
use crate::error::Error;
use crate::types::{QuoteOut, TokenId};
use vstd::prelude::*;

verus! {

pub const E6: u128 = 1_000_000;

/// Above this input the exact-output search gives up.
pub const SEARCH_CEILING: u128 = 10_000_000_000_000;

/// The quote that stands for "no valid quote".
pub open spec fn zero_quote() -> QuoteOut {
    QuoteOut { dy_e6: 0, fee_e6: 0, price_e6: E6 as u128 }
}

/// `(usdc_in, r_in, r_out)` for a supported direction.
pub open spec fn orient_spec(token_in: TokenId, token_out: TokenId, usdc: u128, usdt: u128) -> Option<(bool, u128, u128)> {
    if token_in == TokenId::USDC && token_out == TokenId::USDT {
        Some((true, usdc, usdt))
    } else if token_in == TokenId::USDT && token_out == TokenId::USDC {
        Some((false, usdt, usdc))
    } else {
        None
    }
}

/// A plain amplification is scaled by `A_PRECISION`; a scaled one is kept.
pub open spec fn normalize_amp_spec(a_raw: int) -> int {
    if a_raw < A_PRECISION { a_raw * A_PRECISION } else { a_raw }
}

/// `dy * 1e6 / dx`, the product saturated.
pub open spec fn price_of(dy: int, dx: int) -> int {
    if dx > 0 { sat_u128(dy * E6) / dx } else { E6 as int }
}

/// The quote that `quote` gives for a trade of `dx` in the given direction.
pub open spec fn quote_out_spec(pool: Pool, token_in: TokenId, token_out: TokenId, dx: u128) -> QuoteOut {
    match orient_spec(token_in, token_out, pool.reserve_usdc, pool.reserve_usdt) {
        Some((_, rin, rout)) => {
            if dx == 0 || rin == 0 || rout == 0 {
                zero_quote()
            } else {
                let amp = normalize_amp_spec(pool.a_amp as int);
                let dy = dy_of(amp, rin as int, rout as int, dx as int, pool.fee_bps as int);
                QuoteOut {
                    dy_e6: dy as u128,
                    fee_e6: fee_of(dx as int, pool.fee_bps as int) as u128,
                    price_e6: price_of(dy, dx as int) as u128,
                }
            }
        },
        None => zero_quote(),
    }
}

/// The doubling search for an upper bound: from `hi`, does some input of the
/// sequence `hi, 2 hi + 1, ...` up to the ceiling reach `target`?
pub open spec fn reaches(amp: int, rin: int, rout: int, fee_bps: int, target: int, hi: int) -> bool
    decreases (if 0 <= hi <= SEARCH_CEILING { SEARCH_CEILING + 1 - hi } else { 0 }),
{
    if hi < 0 {
        false
    } else if dy_of(amp, rin, rout, hi, fee_bps) >= target {
        true
    } else {
        let next = sat_u128(2 * hi + 1);
        if next > SEARCH_CEILING {
            false
        } else {
            reaches(amp, rin, rout, fee_bps, target, next)
        }
    }
}

pub(crate) fn orient_pair(token_in: TokenId, token_out: TokenId, usdc: u128, usdt: u128) -> (r: Option<(bool, u128, u128)>)
    ensures
        r == orient_spec(token_in, token_out, usdc, usdt),
{
    match (token_in, token_out) {
        (TokenId::USDC, TokenId::USDT) => Some((true, usdc, usdt)),
        (TokenId::USDT, TokenId::USDC) => Some((false, usdt, usdc)),
        _ => None,
    }
}

pub(crate) fn normalize_amp(a_raw: u128) -> (r: u128)
    ensures
        r == normalize_amp_spec(a_raw as int),
{
    if a_raw < A_PRECISION {
        a_raw * A_PRECISION
    } else {
        a_raw
    }
}

fn price(dy: u128, dx: u128) -> (r: u128)
    ensures
        r == price_of(dy as int, dx as int),
{
    if dx > 0 {
        mul_sat(dy, E6) / dx
    } else {
        E6
    }
}

/// Quotes a trade of `dx_e6` of `token_in` for `token_out` against the
/// pool's reserves; an unsupported pair, a zero amount or an empty side
/// gives the zero quote.
pub fn quote(pool: &Pool, token_in: TokenId, token_out: TokenId, dx_e6: u128) -> (r: QuoteOut)
    ensures
        r == quote_out_spec(*pool, token_in, token_out, dx_e6),
{
    let (_usdc_in, rin, rout) = match crate::swap::orient_pair(token_in, token_out, pool.reserve_usdc, pool.reserve_usdt) {
        Some(x) => x,
        None => return QuoteOut { dy_e6: 0, fee_e6: 0, price_e6: E6 },
    };
    if dx_e6 == 0 || rin == 0 || rout == 0 {
        return QuoteOut { dy_e6: 0, fee_e6: 0, price_e6: E6 };
    }
    let amp = normalize_amp(pool.a_amp as u128);
    let (dy, fee_e6) = quote_dx_to_dy(amp, rin, rout, dx_e6, pool.fee_bps as u32);
    QuoteOut { dy_e6: dy, fee_e6, price_e6: price(dy, dx_e6) }
}

/// Bisects `(lo, hi]` for the point where the output first reaches `target`.
fn bisect(amp: u128, rin: u128, rout: u128, fee_bps: u32, target: u128, lo: u128, hi: u128) -> (r: u128)
    requires
        lo < hi,
        dy_of(amp as int, rin as int, rout as int, lo as int, fee_bps as int) < target,
        dy_of(amp as int, rin as int, rout as int, hi as int, fee_bps as int) >= target,
    ensures
        lo < r <= hi,
        dy_of(amp as int, rin as int, rout as int, r as int, fee_bps as int) >= target,
        dy_of(amp as int, rin as int, rout as int, r - 1, fee_bps as int) < target,
{
    let mut lo = lo;
    let mut hi = hi;
    let ghost lo0 = lo;
    let ghost hi0 = hi;
    while lo + 1 < hi
        invariant
            lo0 <= lo < hi <= hi0,
            dy_of(amp as int, rin as int, rout as int, lo as int, fee_bps as int) < target,
            dy_of(amp as int, rin as int, rout as int, hi as int, fee_bps as int) >= target,
        decreases hi - lo,
    {
        let mid = lo + (hi - lo) / 2;
        let (dy_mid, _) = quote_dx_to_dy(amp, rin, rout, mid, fee_bps);
        if dy_mid >= target {
            hi = mid;
        } else {
            lo = mid;
        }
    }
    hi
}

/// The smallest input whose quote reaches `dy_target_e6`, found by doubling
/// an upper bound and bisecting. The input is returned in `dy_e6`, with its
/// fee and price; the zero quote when the target is 0, the pair or reserves
/// cannot serve, or the search passes its ceiling.
pub fn quote_exact_out(pool: &Pool, token_in: TokenId, token_out: TokenId, dy_target_e6: u128) -> (r: QuoteOut)
    ensures
        ({
            let amp = normalize_amp_spec(pool.a_amp as int);
            let fee = pool.fee_bps as int;
            match orient_spec(token_in, token_out, pool.reserve_usdc, pool.reserve_usdt) {
                Some((_, rin, rout)) => {
                    if dy_target_e6 == 0 || rin == 0 || rout == 0
                        || !reaches(amp, rin as int, rout as int, fee, dy_target_e6 as int, dy_target_e6 as int) {
                        r == zero_quote()
                    } else {
                        &&& r.dy_e6 > 0
                        &&& dy_of(amp, rin as int, rout as int, r.dy_e6 as int, fee) >= dy_target_e6
                        &&& dy_of(amp, rin as int, rout as int, r.dy_e6 - 1, fee) < dy_target_e6
                        &&& r.fee_e6 == fee_of(r.dy_e6 as int, fee)
                        &&& r.price_e6 == price_of(dy_of(amp, rin as int, rout as int, r.dy_e6 as int, fee), r.dy_e6 as int)
                    }
                },
                None => r == zero_quote(),
            }
        }),
{
    if dy_target_e6 == 0 {
        return QuoteOut { dy_e6: 0, fee_e6: 0, price_e6: E6 };
    }
    let (_usdc_in, rin, rout) = match crate::swap::orient_pair(token_in, token_out, pool.reserve_usdc, pool.reserve_usdt) {
        Some(x) => x,
        None => return QuoteOut { dy_e6: 0, fee_e6: 0, price_e6: E6 },
    };
    if rin == 0 || rout == 0 {
        return QuoteOut { dy_e6: 0, fee_e6: 0, price_e6: E6 };
    }
    let amp = normalize_amp(pool.a_amp as u128);
    let fee_bps = pool.fee_bps as u32;
    let ghost start = dy_target_e6 as int;
    let mut hi: u128 = dy_target_e6;
    loop
        invariant
            hi > 0,
            dy_target_e6 > 0,
            start == dy_target_e6 as int,
            amp as int == normalize_amp_spec(pool.a_amp as int),
            fee_bps as int == pool.fee_bps as int,
            orient_spec(token_in, token_out, pool.reserve_usdc, pool.reserve_usdt) == Some((_usdc_in, rin, rout)),
            rin > 0,
            rout > 0,
            reaches(amp as int, rin as int, rout as int, fee_bps as int, dy_target_e6 as int, hi as int)
                == reaches(amp as int, rin as int, rout as int, fee_bps as int, dy_target_e6 as int, start),
        decreases (if hi <= SEARCH_CEILING { SEARCH_CEILING + 1 - hi } else { 0 }),
    {
        let (dy_try, _) = quote_dx_to_dy(amp, rin, rout, hi, fee_bps);
        if dy_try >= dy_target_e6 {
            assert(reaches(amp as int, rin as int, rout as int, fee_bps as int, dy_target_e6 as int, hi as int));
            assert(dy_of(amp as int, rin as int, rout as int, 0, fee_bps as int) == 0);
            let dx = bisect(amp, rin, rout, fee_bps, dy_target_e6, 0, hi);
            let (dy, fee_e6) = quote_dx_to_dy(amp, rin, rout, dx, fee_bps);
            return QuoteOut { dy_e6: dx, fee_e6, price_e6: price(dy, dx) };
        }
        let next = mul_sat(hi, 2).saturating_add(1);
        if next > SEARCH_CEILING {
            assert(!reaches(amp as int, rin as int, rout as int, fee_bps as int, dy_target_e6 as int, hi as int));
            return QuoteOut { dy_e6: 0, fee_e6: 0, price_e6: E6 };
        }
        hi = next;
    }
}

/// The outcome of a trade priced against reserves read from the token
/// ledgers: `(dy, fee)`, or why it cannot go ahead.
pub open spec fn live_swap_spec(pool: Pool, live_usdc: u128, live_usdt: u128, token_in: TokenId, token_out: TokenId, dx: u128, min_dy: u128) -> Result<(u128, u128), Error> {
    if dx == 0 {
        Err(Error::InvalidInput)
    } else {
        match orient_spec(token_in, token_out, live_usdc, live_usdt) {
            None => Err(Error::InvalidInput),
            Some((_, rin, rout)) => {
                let amp = normalize_amp_spec(pool.a_amp as int);
                let dy = dy_of(amp, rin as int, rout as int, dx as int, pool.fee_bps as int);
                if rin == 0 || rout == 0 || dy == 0 {
                    Err(Error::InsufficientLiquidity)
                } else if dy < min_dy {
                    Err(Error::SlippageExceeded)
                } else {
                    Ok((dy as u128, fee_of(dx as int, pool.fee_bps as int) as u128))
                }
            },
        }
    }
}

/// Prices a trade of `dx_e6` against the reserves `live_usdc`, `live_usdt`
/// read from the token ledgers, with the pool's amplification and fee.
pub fn plan_live_swap(pool: &Pool, live_usdc: u128, live_usdt: u128, token_in: TokenId, token_out: TokenId, dx_e6: u128, min_dy_e6: u128) -> (r: Result<(u128, u128), Error>)
    ensures
        r == live_swap_spec(*pool, live_usdc, live_usdt, token_in, token_out, dx_e6, min_dy_e6),
{
    if dx_e6 == 0 {
        return Err(Error::InvalidInput);
    }
    let (_usdc_in, rin, rout) = match orient_pair(token_in, token_out, live_usdc, live_usdt) {
        Some(x) => x,
        None => return Err(Error::InvalidInput),
    };
    if rin == 0 || rout == 0 {
        return Err(Error::InsufficientLiquidity);
    }
    let amp = normalize_amp(pool.a_amp as u128);
    let (dy, fee_e6) = quote_dx_to_dy(amp, rin, rout, dx_e6, pool.fee_bps as u32);
    if dy == 0 {
        return Err(Error::InsufficientLiquidity);
    }
    if dy < min_dy_e6 {
        return Err(Error::SlippageExceeded);
    }
    Ok((dy, fee_e6))
}

} // verus!
