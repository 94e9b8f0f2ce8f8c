//! The pool's whole state and the operations that mutate it. Each operation
//! either fails and leaves the state as it was, or applies all its changes.
use crate::arith::{sat_sub, sat_u128};
use crate::book::{holding_for, holding_of, keys_unique, put_holding, shares_sum, Holding, UserEntry};
use crate::error::Error;
use crate::fees::{accrue, accrue_spec, min_int, settled, FeeState};
use crate::events::{push, trimmed, Event};
use crate::pool::Pool;
use crate::stableswap::{dy_of, fee_of};
use crate::stats::RollingStats;
use crate::swap::{normalize_amp_spec, orient_spec};
use crate::types::TokenId;
use vstd::prelude::*;

verus! {

/// The pool, its fee books and every user's holding.
pub struct State {
    pub pool: Pool,
    pub fees: FeeState,
    pub users: Vec<UserEntry>,
    /// The activity log, newest last.
    pub events: Vec<Event>,
    pub stats: RollingStats,
}

/// Shares minted for a deposit: the sum of both amounts into an empty pool,
/// else the smaller of the two proportional claims.
pub open spec fn mint_spec(ru: int, rv: int, ts: int, u: int, v: int) -> int {
    if ts == 0 || ru == 0 || rv == 0 {
        sat_u128(u + v)
    } else {
        min_int(sat_u128(u * ts) / ru, sat_u128(v * ts) / rv)
    }
}

/// The share of a reserve that `shares` out of `ts` redeem.
pub open spec fn redeem_spec(shares: int, reserve: int, ts: int) -> int {
    sat_u128(shares * reserve) / ts
}

/// A user's shares after rescaling the total from `old_total` to `new_total`.
pub open spec fn rescale_spec(shares: int, new_total: int, old_total: int) -> int {
    if old_total == 0 { shares } else { sat_u128(shares * new_total) / old_total }
}

pub open spec fn avail_of(h: Holding, token: TokenId) -> int {
    if token == TokenId::USDC {
        h.avail_usdc as int
    } else if token == TokenId::USDT {
        h.avail_usdt as int
    } else {
        0
    }
}

pub open spec fn with_avail(h: Holding, token: TokenId, amt: u128) -> Holding {
    if token == TokenId::USDC {
        Holding { avail_usdc: amt, ..h }
    } else if token == TokenId::USDT {
        Holding { avail_usdt: amt, ..h }
    } else {
        h
    }
}

/// The outcome of a swap request: `(usdc_in, dy, fee)` or the error.
pub open spec fn swap_decision(pool: Pool, h: Holding, token_in: TokenId, token_out: TokenId, dx: u128, min_dy: u128) -> Result<(bool, u128, u128), Error> {
    match orient_spec(token_in, token_out, pool.reserve_usdc, pool.reserve_usdt) {
        None => Err(Error::InvalidInput),
        Some((usdc_in, rin, rout)) => {
            let amp = normalize_amp_spec(pool.a_amp as int);
            let dy = dy_of(amp, rin as int, rout as int, dx as int, pool.fee_bps as int);
            if dx == 0 {
                Err(Error::InvalidInput)
            } else if dx > avail_of(h, token_in) {
                Err(Error::BalanceTooLow)
            } else if rin == 0 || rout == 0 || dy == 0 {
                Err(Error::InsufficientLiquidity)
            } else if dy < min_dy {
                Err(Error::SlippageExceeded)
            } else {
                Ok((usdc_in, dy as u128, fee_of(dx as int, pool.fee_bps as int) as u128))
            }
        },
    }
}

/// The pool after a trade: the net input joins one reserve, `dy` leaves the other.
pub open spec fn pool_after_swap(pool: Pool, usdc_in: bool, dx_net: int, dy: int) -> Pool {
    if usdc_in {
        Pool {
            reserve_usdc: sat_u128(pool.reserve_usdc + dx_net) as u128,
            reserve_usdt: sat_sub(pool.reserve_usdt as int, dy) as u128,
            ..pool
        }
    } else {
        Pool {
            reserve_usdt: sat_u128(pool.reserve_usdt + dx_net) as u128,
            reserve_usdc: sat_sub(pool.reserve_usdc as int, dy) as u128,
            ..pool
        }
    }
}

/// The trader's holding after a trade: `dx` leaves one balance, `dy` joins the other.
pub open spec fn holding_after_swap(h: Holding, usdc_in: bool, dx: int, dy: int) -> Holding {
    if usdc_in {
        Holding {
            avail_usdc: sat_sub(h.avail_usdc as int, dx) as u128,
            avail_usdt: sat_u128(h.avail_usdt + dy) as u128,
            ..h
        }
    } else {
        Holding {
            avail_usdt: sat_sub(h.avail_usdt as int, dx) as u128,
            avail_usdc: sat_u128(h.avail_usdc + dy) as u128,
            ..h
        }
    }
}

/// A holding after its claim: settled, owed fees moved to the available balances.
pub open spec fn holding_after_claim(h: Holding, f: FeeState) -> Holding {
    let s = settled(h, f);
    Holding {
        fee_owed_usdc: 0,
        fee_owed_usdt: 0,
        avail_usdc: sat_u128(s.avail_usdc + s.fee_owed_usdc) as u128,
        avail_usdt: sat_u128(s.avail_usdt + s.fee_owed_usdt) as u128,
        ..s
    }
}

/// The fee books after paying out a claim by the holding `h`.
pub open spec fn fees_after_claim(f: FeeState, h: Holding) -> FeeState {
    let s = settled(h, f);
    FeeState {
        vault_usdc: sat_sub(f.vault_usdc as int, s.fee_owed_usdc as int) as u128,
        vault_usdt: sat_sub(f.vault_usdt as int, s.fee_owed_usdt as int) as u128,
        ..f
    }
}

/// What a claim by the holding `h` pays out.
pub open spec fn claim_amounts(h: Holding, f: FeeState) -> (u128, u128) {
    let s = settled(h, f);
    (s.fee_owed_usdc, s.fee_owed_usdt)
}

impl State {
    pub open spec fn wf(&self) -> bool {
        keys_unique(self.users@)
    }

    /// The holding recorded for `who`.
    pub open spec fn holding(&self, who: Seq<char>) -> Holding {
        holding_of(self.users@, who)
    }

    /// `new` differs from `self` in its users only at `who`, which holds `h`.
    pub open spec fn put(&self, new: &State, who: Seq<char>, h: Holding) -> bool {
        &&& new.wf()
        &&& new.events == self.events
        &&& new.stats == self.stats
        &&& shares_sum(new.users@) == shares_sum(self.users@) - self.holding(who).shares + h.shares
        &&& forall|w: Seq<char>| #[trigger] new.holding(w) == if w == who { h } else { self.holding(w) }
    }

    /// An empty pool with default parameters.
    pub fn new() -> (r: State)
        ensures
            r.wf(),
            r.pool == Pool::default_spec(),
            r.fees == FeeState::zero(),
            r.users@.len() == 0,
            r.events@.len() == 0,
            r.stats.wf(),
    {
        State {
            pool: Pool::default(),
            fees: FeeState { vault_usdc: 0, vault_usdt: 0, growth_usdc_e18: 0, growth_usdt_e18: 0 },
            users: Vec::new(),
            events: Vec::new(),
            stats: RollingStats::default(),
        }
    }

    /// Appends `ev` to the activity log, which keeps its newest entries.
    pub fn push_event(&mut self, ev: Event)
        ensures
            final(self).events@ == trimmed(old(self).events@.push(ev)),
            final(self).pool == old(self).pool,
            final(self).fees == old(self).fees,
            final(self).users@ == old(self).users@,
            final(self).stats == old(self).stats,
    {
        push(&mut self.events, ev);
    }

    /// The shares that `who` holds.
    pub fn get_user_position(&self, who: &String) -> (r: u128)
        requires
            self.wf(),
        ensures
            r == self.holding(who@).shares,
    {
        holding_for(&self.users, who).shares
    }

    /// The balance of `token` available to `who` outside the pool.
    pub fn available(&self, who: &String, token: TokenId) -> (r: u128)
        requires
            self.wf(),
        ensures
            r == avail_of(self.holding(who@), token),
    {
        let h = holding_for(&self.users, who);
        match token {
            TokenId::USDC => h.avail_usdc,
            TokenId::USDT => h.avail_usdt,
            _ => 0,
        }
    }

    /// Records the balance of `token` available to `who`, as read from the
    /// token's ledger; other tokens are not tracked.
    pub fn set_available(&mut self, who: &String, token: TokenId, amt_e6: u128)
        requires
            old(self).wf(),
        ensures
            old(self).put(final(self), who@, with_avail(old(self).holding(who@), token, amt_e6)),
            final(self).pool == old(self).pool,
            final(self).fees == old(self).fees,
    {
        let h = holding_for(&self.users, who);
        let nh = match token {
            TokenId::USDC => Holding { avail_usdc: amt_e6, ..h },
            TokenId::USDT => Holding { avail_usdt: amt_e6, ..h },
            _ => h,
        };
        put_holding(&mut self.users, who, nh);
    }

    /// Books an input-side swap fee on `token_in`.
    pub fn accrue_swap_fee(&mut self, token_in: TokenId, fee_e6: u128)
        ensures
            final(self).fees == accrue_spec(old(self).fees, old(self).pool.total_shares, token_in, fee_e6),
            final(self).pool == old(self).pool,
            final(self).users@ == old(self).users@,
            final(self).events == old(self).events,
            final(self).stats == old(self).stats,
    {
        let ts = self.pool.total_shares;
        accrue(&mut self.fees, ts, token_in, fee_e6);
    }
}

} // verus!
