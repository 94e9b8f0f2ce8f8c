//! Saturating integer helpers shared by the pricing and ledger code.
use vstd::prelude::*;

verus! {

pub open spec fn sat_u128(x: int) -> int {
    if x > u128::MAX { u128::MAX as int } else { x }
}

pub open spec fn sat_sub(a: int, b: int) -> int {
    if a >= b { a - b } else { 0 }
}

/// `a * b`, saturated at `u128::MAX`.
pub fn mul_sat(a: u128, b: u128) -> (r: u128)
    ensures
        r == sat_u128(a as int * b as int),
{
    if b == 0 {
        return 0;
    }
    if a > u128::MAX / b {
        proof {
            let (ai, bi, m) = (a as int, b as int, u128::MAX as int);
            assert(ai * bi > m) by (nonlinear_arith)
                requires
                    ai > m / bi,
                    bi > 0,
                    m >= 0,
            ;
        }
        u128::MAX
    } else {
        proof {
            let (ai, bi, m) = (a as int, b as int, u128::MAX as int);
            assert(ai * bi <= m) by (nonlinear_arith)
                requires
                    ai <= m / bi,
                    bi > 0,
                    m >= 0,
            ;
        }
        a * b
    }
}

} // verus!
