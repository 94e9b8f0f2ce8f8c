//! Errors of the pool's mutating operations.
use vstd::prelude::*;

verus! {

#[derive(Clone, Debug, PartialEq, Eq)]
pub enum Error {
    /// A zero or malformed amount, or an unsupported pair.
    InvalidInput,
    /// The pool state or rounding leaves nothing to mint or to pay out.
    InsufficientLiquidity,
    /// The caller asks for more than their balance or shares.
    BalanceTooLow,
    /// The output falls below the caller's minimum.
    SlippageExceeded,
    PriceImpactTooHigh,
    /// The pool's books cannot serve the request (no shares outstanding).
    DInvariantBroken,
    /// A failure reported by a collaborator outside the pool's books.
    Internal(String),
}

} // verus!
