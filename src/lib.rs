//! A two-asset StableSwap pool: the integer invariant solver, the quote
//! engine, and the share and fee ledgers that a pool keeps for its
//! liquidity providers.
pub mod account;
pub mod arith;
pub mod bignum;
pub mod book;
pub mod error;
pub mod events;
pub mod fees;
pub mod ledger_book;
pub mod pool;
pub mod positions;
pub mod scale;
pub mod stableswap;
pub mod state;
pub mod stats;
pub mod swap;
pub mod types;
