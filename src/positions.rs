//! Liquidity and fee operations on the pool's state.
use crate::arith::{mul_sat, sat_sub, sat_u128};
use crate::book::{
    lemma_shares_sum_nonneg,
    holding_for, holding_of, holds_key, keys_unique, lemma_holding_at, lemma_holding_le_sum, put_holding,
    shares_sum, Holding, UserEntry,
};
use crate::error::Error;
use crate::fees::{accrue_spec, preview, preview_spec, settle_user_fee, settled};
use crate::stableswap::quote_dx_to_dy;
use crate::state::{
    claim_amounts, fees_after_claim, holding_after_claim, holding_after_swap, mint_spec,
    pool_after_swap, redeem_spec, rescale_spec, swap_decision, State,
};
use crate::types::TokenId;
use vstd::prelude::*;

verus! {

fn mint_amount(ru: u128, rv: u128, ts: u128, usdc: u128, usdt: u128) -> (r: u128)
    ensures
        r == mint_spec(ru as int, rv as int, ts as int, usdc as int, usdt as int),
{
    if ts == 0 || ru == 0 || rv == 0 {
        usdc.saturating_add(usdt)
    } else {
        let m1 = mul_sat(usdc, ts) / ru;
        let m2 = mul_sat(usdt, ts) / rv;
        if m1 <= m2 { m1 } else { m2 }
    }
}

impl State {
    /// Deposits `usdc` and `usdt` from `who`'s available balances and mints
    /// shares for them. The holding is settled against the fee index first.
    pub fn add_liquidity(&mut self, who: &String, usdc: u128, usdt: u128) -> (r: Result<u128, Error>)
        requires
            old(self).wf(),
        ensures
            ({
                let h = old(self).holding(who@);
                let p = old(self).pool;
                let m = mint_spec(p.reserve_usdc as int, p.reserve_usdt as int, p.total_shares as int, usdc as int, usdt as int);
                if usdc == 0 && usdt == 0 {
                    r == Err::<u128, Error>(Error::InvalidInput) && *final(self) == *old(self)
                } else if usdc > h.avail_usdc || usdt > h.avail_usdt {
                    r == Err::<u128, Error>(Error::BalanceTooLow) && *final(self) == *old(self)
                } else if m == 0 {
                    r == Err::<u128, Error>(Error::InsufficientLiquidity) && *final(self) == *old(self)
                } else {
                    let s = settled(h, old(self).fees);
                    &&& r == Ok::<u128, Error>(m as u128)
                    &&& final(self).fees == old(self).fees
                    &&& final(self).pool == (crate::pool::Pool {
                        reserve_usdc: sat_u128(p.reserve_usdc + usdc) as u128,
                        reserve_usdt: sat_u128(p.reserve_usdt + usdt) as u128,
                        total_shares: sat_u128(p.total_shares + m) as u128,
                        ..p
                    })
                    &&& old(self).put(final(self), who@, Holding {
                        shares: sat_u128(s.shares + m) as u128,
                        avail_usdc: (s.avail_usdc - usdc) as u128,
                        avail_usdt: (s.avail_usdt - usdt) as u128,
                        ..s
                    })
                    &&& (shares_sum(old(self).users@) == p.total_shares && p.total_shares + m <= u128::MAX
                        ==> shares_sum(final(self).users@) == final(self).pool.total_shares)
                }
            }),
    {
        if usdc == 0 && usdt == 0 {
            return Err(Error::InvalidInput);
        }
        let h = holding_for(&self.users, who);
        if usdc > h.avail_usdc || usdt > h.avail_usdt {
            return Err(Error::BalanceTooLow);
        }
        let ru = self.pool.reserve_usdc;
        let rv = self.pool.reserve_usdt;
        let ts = self.pool.total_shares;
        let minted = mint_amount(ru, rv, ts, usdc, usdt);
        if minted == 0 {
            return Err(Error::InsufficientLiquidity);
        }
        proof {
            lemma_holding_le_sum(self.users@, who@);
        }
        let s = settle_user_fee(h, &self.fees);
        let nh = Holding {
            shares: s.shares.saturating_add(minted),
            avail_usdc: s.avail_usdc - usdc,
            avail_usdt: s.avail_usdt - usdt,
            ..s
        };
        put_holding(&mut self.users, who, nh);
        self.pool.reserve_usdc = ru.saturating_add(usdc);
        self.pool.reserve_usdt = rv.saturating_add(usdt);
        self.pool.total_shares = ts.saturating_add(minted);
        Ok(minted)
    }

    /// Burns `shares` of `who` and pays out their proportional part of both
    /// reserves to `who`'s available balances. The holding is settled
    /// against the fee index first.
    pub fn remove_liquidity(&mut self, who: &String, shares: u128) -> (r: Result<(u128, u128), Error>)
        requires
            old(self).wf(),
        ensures
            ({
                let h = old(self).holding(who@);
                let p = old(self).pool;
                let out_u = redeem_spec(shares as int, p.reserve_usdc as int, p.total_shares as int);
                let out_v = redeem_spec(shares as int, p.reserve_usdt as int, p.total_shares as int);
                if shares == 0 {
                    r == Err::<(u128, u128), Error>(Error::InvalidInput) && *final(self) == *old(self)
                } else if shares > h.shares {
                    r == Err::<(u128, u128), Error>(Error::BalanceTooLow) && *final(self) == *old(self)
                } else if p.total_shares == 0 {
                    r == Err::<(u128, u128), Error>(Error::DInvariantBroken) && *final(self) == *old(self)
                } else {
                    let s = settled(h, old(self).fees);
                    &&& r == Ok::<(u128, u128), Error>((out_u as u128, out_v as u128))
                    &&& final(self).fees == old(self).fees
                    &&& final(self).pool == (crate::pool::Pool {
                        reserve_usdc: sat_sub(p.reserve_usdc as int, out_u) as u128,
                        reserve_usdt: sat_sub(p.reserve_usdt as int, out_v) as u128,
                        total_shares: sat_sub(p.total_shares as int, shares as int) as u128,
                        ..p
                    })
                    &&& old(self).put(final(self), who@, Holding {
                        shares: (s.shares - shares) as u128,
                        avail_usdc: sat_u128(s.avail_usdc + out_u) as u128,
                        avail_usdt: sat_u128(s.avail_usdt + out_v) as u128,
                        ..s
                    })
                    &&& (shares_sum(old(self).users@) == p.total_shares
                        ==> shares_sum(final(self).users@) == final(self).pool.total_shares)
                }
            }),
    {
        if shares == 0 {
            return Err(Error::InvalidInput);
        }
        let h = holding_for(&self.users, who);
        if shares > h.shares {
            return Err(Error::BalanceTooLow);
        }
        let ts = self.pool.total_shares;
        if ts == 0 {
            return Err(Error::DInvariantBroken);
        }
        let ru = self.pool.reserve_usdc;
        let rv = self.pool.reserve_usdt;
        let amt_usdc = mul_sat(shares, ru) / ts;
        let amt_usdt = mul_sat(shares, rv) / ts;
        proof {
            lemma_holding_le_sum(self.users@, who@);
        }
        let s = settle_user_fee(h, &self.fees);
        let nh = Holding {
            shares: s.shares - shares,
            avail_usdc: s.avail_usdc.saturating_add(amt_usdc),
            avail_usdt: s.avail_usdt.saturating_add(amt_usdt),
            ..s
        };
        put_holding(&mut self.users, who, nh);
        self.pool.reserve_usdc = ru.saturating_sub(amt_usdc);
        self.pool.reserve_usdt = rv.saturating_sub(amt_usdt);
        self.pool.total_shares = ts.saturating_sub(shares);
        Ok((amt_usdc, amt_usdt))
    }

    /// Pays `who` the fees they are owed: settles, zeroes what is owed,
    /// takes it out of the vault and adds it to the available balances.
    /// A claim of `(0, 0)` only advances the user's fee indexes.
    pub fn claim_fee(&mut self, who: &String) -> (r: Result<(u128, u128), Error>)
        requires
            old(self).wf(),
        ensures
            ({
                let h = old(self).holding(who@);
                let f = old(self).fees;
                &&& r == Ok::<(u128, u128), Error>(claim_amounts(h, f))
                &&& final(self).fees == fees_after_claim(f, h)
                &&& final(self).pool == old(self).pool
                &&& old(self).put(final(self), who@, holding_after_claim(h, f))
            }),
    {
        let h = holding_for(&self.users, who);
        let s = settle_user_fee(h, &self.fees);
        let owe_u = s.fee_owed_usdc;
        let owe_v = s.fee_owed_usdt;
        let nh = Holding {
            fee_owed_usdc: 0,
            fee_owed_usdt: 0,
            avail_usdc: s.avail_usdc.saturating_add(owe_u),
            avail_usdt: s.avail_usdt.saturating_add(owe_v),
            ..s
        };
        put_holding(&mut self.users, who, nh);
        self.fees.vault_usdc = self.fees.vault_usdc.saturating_sub(owe_u);
        self.fees.vault_usdt = self.fees.vault_usdt.saturating_sub(owe_v);
        Ok((owe_u, owe_v))
    }

    /// What `who` could claim now, capped by the vault; changes nothing.
    pub fn preview_claim_fee(&self, who: &String) -> (r: Result<(u128, u128), Error>)
        requires
            self.wf(),
        ensures
            r == Ok::<(u128, u128), Error>((
                preview_spec(self.holding(who@), self.fees).0 as u128,
                preview_spec(self.holding(who@), self.fees).1 as u128,
            )),
    {
        let h = holding_for(&self.users, who);
        Ok(preview(h, &self.fees))
    }

    /// Trades `dx_e6` of `token_in` from `who`'s available balance for
    /// `token_out`. The fee goes to the fee books, the net input to the
    /// reserves; the output joins `who`'s available balance.
    pub fn swap(&mut self, who: &String, token_in: TokenId, token_out: TokenId, dx_e6: u128, min_dy_e6: u128) -> (r: Result<u128, Error>)
        requires
            old(self).wf(),
        ensures
            ({
                let h = old(self).holding(who@);
                let p = old(self).pool;
                match swap_decision(p, h, token_in, token_out, dx_e6, min_dy_e6) {
                    Err(e) => r == Err::<u128, Error>(e) && *final(self) == *old(self),
                    Ok((usdc_in, dy, fee)) => {
                        &&& r == Ok::<u128, Error>(dy)
                        &&& final(self).fees == accrue_spec(old(self).fees, p.total_shares, token_in, fee)
                        &&& final(self).pool == pool_after_swap(p, usdc_in, sat_sub(dx_e6 as int, fee as int), dy as int)
                        &&& old(self).put(final(self), who@, holding_after_swap(h, usdc_in, dx_e6 as int, dy as int))
                    },
                }
            }),
    {
        let (usdc_in, rin, rout) = match crate::swap::orient_pair(token_in, token_out, self.pool.reserve_usdc, self.pool.reserve_usdt) {
            Some(x) => x,
            None => return Err(Error::InvalidInput),
        };
        if dx_e6 == 0 {
            return Err(Error::InvalidInput);
        }
        let h = holding_for(&self.users, who);
        let avail = if usdc_in { h.avail_usdc } else { h.avail_usdt };
        if dx_e6 > avail {
            return Err(Error::BalanceTooLow);
        }
        if rin == 0 || rout == 0 {
            return Err(Error::InsufficientLiquidity);
        }
        let amp = crate::swap::normalize_amp(self.pool.a_amp as u128);
        let (dy, fee_e6) = quote_dx_to_dy(amp, rin, rout, dx_e6, self.pool.fee_bps as u32);
        if dy == 0 {
            return Err(Error::InsufficientLiquidity);
        }
        if dy < min_dy_e6 {
            return Err(Error::SlippageExceeded);
        }
        self.accrue_swap_fee(token_in, fee_e6);
        let dx_net = dx_e6.saturating_sub(fee_e6);
        let nh = if usdc_in {
            Holding { avail_usdc: h.avail_usdc - dx_e6, avail_usdt: h.avail_usdt.saturating_add(dy), ..h }
        } else {
            Holding { avail_usdt: h.avail_usdt - dx_e6, avail_usdc: h.avail_usdc.saturating_add(dy), ..h }
        };
        put_holding(&mut self.users, who, nh);
        if usdc_in {
            self.pool.reserve_usdc = self.pool.reserve_usdc.saturating_add(dx_net);
            self.pool.reserve_usdt = self.pool.reserve_usdt.saturating_sub(dy);
        } else {
            self.pool.reserve_usdt = self.pool.reserve_usdt.saturating_add(dx_net);
            self.pool.reserve_usdc = self.pool.reserve_usdc.saturating_sub(dy);
        }
        Ok(dy)
    }

    /// Rescales every user's shares by `new_total_e6 / old_total`, where
    /// `old_total` is the sum of the users' shares, and sets the pool's total
    /// to `new_total_e6`. Without shares outstanding only the total changes.
    pub fn admin_rescale_all_shares(&mut self, new_total_e6: u128)
        requires
            old(self).wf(),
        ensures
            final(self).wf(),
            final(self).fees == old(self).fees,
            final(self).events == old(self).events,
            final(self).stats == old(self).stats,
            final(self).pool == (crate::pool::Pool { total_shares: new_total_e6, ..old(self).pool }),
            forall|w: Seq<char>| #[trigger] final(self).holding(w) == (Holding {
                shares: rescale_spec(
                    old(self).holding(w).shares as int,
                    new_total_e6 as int,
                    sat_u128(shares_sum(old(self).users@)),
                ) as u128,
                ..old(self).holding(w)
            }),
    {
        let ghost old_users = self.users@;
        let mut old_total: u128 = 0;
        let mut i: usize = 0;
        while i < self.users.len()
            invariant
                i <= self.users@.len(),
                self.fees == old(self).fees,
                self.pool == old(self).pool,
                self.events == old(self).events,
                self.stats == old(self).stats,
                self.users@ == old_users,
                old_total == sat_u128(shares_sum(self.users@.subrange(0, i as int))),
            decreases self.users@.len() - i,
        {
            proof {
                let sub = self.users@.subrange(0, i as int + 1);
                assert(sub.drop_last() =~= self.users@.subrange(0, i as int));
            }
            old_total = old_total.saturating_add(self.users[i].holding.shares);
            i = i + 1;
        }
        proof {
            assert(self.users@.subrange(0, self.users@.len() as int) =~= self.users@);
        }
        if old_total == 0 {
            self.pool.total_shares = new_total_e6;
            proof {
                lemma_zero_sum_means_zero_shares(self.users@);
            }
            return;
        }
        let mut j: usize = 0;
        while j < self.users.len()
            invariant
                old_total > 0,
                self.fees == old(self).fees,
                self.pool == old(self).pool,
                self.events == old(self).events,
                self.stats == old(self).stats,
                old_users == old(self).users@,
                old_total == sat_u128(shares_sum(old_users)),
                keys_unique(old_users),
                j <= self.users@.len(),
                self.users@.len() == old_users.len(),
                forall|k: int| 0 <= k < old_users.len() ==> (#[trigger] self.users@[k]).who@ == old_users[k].who@,
                forall|k: int| 0 <= k < j ==> (#[trigger] self.users@[k]).holding == (Holding {
                    shares: rescale_spec(old_users[k].holding.shares as int, new_total_e6 as int, old_total as int) as u128,
                    ..old_users[k].holding
                }),
                forall|k: int| j <= k < old_users.len() ==> (#[trigger] self.users@[k]).holding == old_users[k].holding,
            decreases self.users@.len() - j,
        {
            let h = self.users[j].holding;
            let nh = Holding { shares: mul_sat(h.shares, new_total_e6) / old_total, ..h };
            let who = self.users[j].who.clone();
            self.users.set(j, UserEntry { who, holding: nh });
            j = j + 1;
        }
        self.pool.total_shares = new_total_e6;
        proof {
            lemma_rescaled_holdings(old_users, self.users@, new_total_e6 as int, old_total as int);
        }
    }
}

impl State {
    /// Rescales all shares to the sum of the internal reserves; returns that total.
    pub fn admin_reconcile_from_internal(&mut self) -> (r: u128)
        requires
            old(self).wf(),
        ensures
            r == sat_u128(old(self).pool.reserve_usdc + old(self).pool.reserve_usdt),
            final(self).wf(),
            final(self).fees == old(self).fees,
            final(self).events == old(self).events,
            final(self).pool == (crate::pool::Pool { total_shares: r, ..old(self).pool }),
            forall|w: Seq<char>| #[trigger] final(self).holding(w) == (Holding {
                shares: rescale_spec(old(self).holding(w).shares as int, r as int, sat_u128(shares_sum(old(self).users@))) as u128,
                ..old(self).holding(w)
            }),
    {
        let new_total = self.pool.get_tvl_e6();
        self.admin_rescale_all_shares(new_total);
        new_total
    }

    /// Adopts balances observed on the token ledgers as the reserves, and
    /// rescales all shares to their sum; returns that total.
    pub fn admin_reconcile_pool_from_live(&mut self, usdc_e6: u128, usdt_e6: u128) -> (r: u128)
        requires
            old(self).wf(),
        ensures
            r == sat_u128(usdc_e6 + usdt_e6),
            final(self).wf(),
            final(self).fees == old(self).fees,
            final(self).events == old(self).events,
            final(self).pool == (crate::pool::Pool {
                total_shares: r,
                reserve_usdc: usdc_e6,
                reserve_usdt: usdt_e6,
                ..old(self).pool
            }),
            forall|w: Seq<char>| #[trigger] final(self).holding(w) == (Holding {
                shares: rescale_spec(old(self).holding(w).shares as int, r as int, sat_u128(shares_sum(old(self).users@))) as u128,
                ..old(self).holding(w)
            }),
    {
        let new_total = usdc_e6.saturating_add(usdt_e6);
        self.admin_rescale_all_shares(new_total);
        let ghost mid = *self;
        self.pool.reserve_usdc = usdc_e6;
        self.pool.reserve_usdt = usdt_e6;
        assert forall|w: Seq<char>| #[trigger] self.holding(w) == mid.holding(w) by {}
        new_total
    }

    /// Books a trade settled directly on the token ledgers: the fee goes to
    /// the fee books and the reserves move; no user balance changes.
    pub fn apply_live_swap(&mut self, token_in: TokenId, dx_e6: u128, dy_e6: u128, fee_e6: u128)
        requires
            old(self).wf(),
        ensures
            final(self).wf(),
            final(self).users@ == old(self).users@,
            final(self).events == old(self).events,
            final(self).stats == old(self).stats,
            final(self).fees == accrue_spec(old(self).fees, old(self).pool.total_shares, token_in, fee_e6),
            final(self).pool == pool_after_swap(old(self).pool, token_in == TokenId::USDC, sat_sub(dx_e6 as int, fee_e6 as int), dy_e6 as int),
    {
        self.accrue_swap_fee(token_in, fee_e6);
        let dx_net = dx_e6.saturating_sub(fee_e6);
        if token_in == TokenId::USDC {
            self.pool.reserve_usdc = self.pool.reserve_usdc.saturating_add(dx_net);
            self.pool.reserve_usdt = self.pool.reserve_usdt.saturating_sub(dy_e6);
        } else {
            self.pool.reserve_usdt = self.pool.reserve_usdt.saturating_add(dx_net);
            self.pool.reserve_usdc = self.pool.reserve_usdc.saturating_sub(dy_e6);
        }
    }

    /// Takes fees paid out on the token ledgers out of the reserves.
    pub fn debit_reserves(&mut self, usdc_e6: u128, usdt_e6: u128)
        ensures
            final(self).pool == (crate::pool::Pool {
                reserve_usdc: sat_sub(old(self).pool.reserve_usdc as int, usdc_e6 as int) as u128,
                reserve_usdt: sat_sub(old(self).pool.reserve_usdt as int, usdt_e6 as int) as u128,
                ..old(self).pool
            }),
            final(self).fees == old(self).fees,
            final(self).users@ == old(self).users@,
            final(self).events == old(self).events,
            final(self).stats == old(self).stats,
    {
        self.pool.reserve_usdc = self.pool.reserve_usdc.saturating_sub(usdc_e6);
        self.pool.reserve_usdt = self.pool.reserve_usdt.saturating_sub(usdt_e6);
    }
}

/// With a zero sum every user's shares are zero, so rescaling keeps them.
proof fn lemma_zero_sum_means_zero_shares(users: Seq<UserEntry>)
    requires
        sat_u128(shares_sum(users)) == 0,
    ensures
        forall|k: int| 0 <= k < users.len() ==> users[k].holding.shares == 0,
    decreases users.len(),
{
    if users.len() > 0 {
        lemma_shares_sum_nonneg(users.drop_last());
        lemma_zero_sum_means_zero_shares(users.drop_last());
        assert forall|k: int| 0 <= k < users.len() implies users[k].holding.shares == 0 by {
            if k < users.len() - 1 {
                assert(users[k] == users.drop_last()[k]);
            }
        }
    }
}

/// Pointwise rescaled rows with the same keys give rescaled holdings.
proof fn lemma_rescaled_holdings(old_users: Seq<UserEntry>, new_users: Seq<UserEntry>, new_total: int, old_total: int)
    requires
        keys_unique(old_users),
        old_total > 0,
        new_users.len() == old_users.len(),
        forall|k: int| 0 <= k < old_users.len() ==> (#[trigger] new_users[k]).who@ == old_users[k].who@,
        forall|k: int| 0 <= k < old_users.len() ==> (#[trigger] new_users[k]).holding == (Holding {
            shares: rescale_spec(old_users[k].holding.shares as int, new_total, old_total) as u128,
            ..old_users[k].holding
        }),
    ensures
        keys_unique(new_users),
        forall|w: Seq<char>| #[trigger] holding_of(new_users, w) == (Holding {
            shares: rescale_spec(holding_of(old_users, w).shares as int, new_total, old_total) as u128,
            ..holding_of(old_users, w)
        }),
{
    assert(keys_unique(new_users)) by {
        assert forall|i: int, j: int| 0 <= i < j < new_users.len() implies new_users[i].who@ != new_users[j].who@ by {
            assert(new_users[i].who@ == old_users[i].who@);
            assert(new_users[j].who@ == old_users[j].who@);
        }
    }
    assert forall|w: Seq<char>| #[trigger] holding_of(new_users, w) == (Holding {
        shares: rescale_spec(holding_of(old_users, w).shares as int, new_total, old_total) as u128,
        ..holding_of(old_users, w)
    }) by {
        if exists|k: int| holds_key(old_users, w, k) {
            let k = choose|k: int| holds_key(old_users, w, k);
            lemma_holding_at(old_users, k);
            assert(new_users[k].who@ == old_users[k].who@);
            lemma_holding_at(new_users, k);
        } else {
            assert forall|k: int| !holds_key(new_users, w, k) by {
                if 0 <= k < new_users.len() {
                    assert(new_users[k].who@ == old_users[k].who@);
                    assert(!holds_key(old_users, w, k));
                }
            }
            assert(rescale_spec(0, new_total, old_total) == 0) by (nonlinear_arith)
                requires
                    old_total > 0,
            ;
        }
    }
}

/// Claiming twice in a row, with no fee booked in between, pays nothing the
/// second time: `s1` is what a claim by `who` makes of `s0`, and a claim by
/// `who` on `s1` returns `(0, 0)`.
pub proof fn lemma_second_claim_pays_nothing(s0: State, s1: State, who: Seq<char>)
    requires
        s0.wf(),
        s0.put(&s1, who, holding_after_claim(s0.holding(who), s0.fees)),
        s1.fees == fees_after_claim(s0.fees, s0.holding(who)),
    ensures
        claim_amounts(s1.holding(who), s1.fees) == (0u128, 0u128),
{
    assert(s1.holding(who) == holding_after_claim(s0.holding(who), s0.fees));
}

/// A first deposit into an empty pool, redeemed at once, comes back whole:
/// `u + v` shares are minted and they redeem exactly `(u, v)`.
pub proof fn lemma_first_deposit_round_trip(u: u128, v: u128)
    requires
        u + v > 0,
        (u + v) * u <= u128::MAX,
        (u + v) * v <= u128::MAX,
    ensures
        ({
            let m = mint_spec(0, 0, 0, u as int, v as int);
            &&& m == u + v
            &&& redeem_spec(m, u as int, m) == u
            &&& redeem_spec(m, v as int, m) == v
        }),
{
    let m = u + v;
    assert(m <= u128::MAX) by (nonlinear_arith)
        requires
            m == u + v,
            m * u <= u128::MAX,
            m * v <= u128::MAX,
            m > 0,
            u >= 0,
            v >= 0,
    ;
    assert(mint_spec(0, 0, 0, u as int, v as int) == m);
    assert((m * u) / m == u as int) by (nonlinear_arith)
        requires
            m > 0,
            u >= 0,
    ;
    assert((m * v) / m == v as int) by (nonlinear_arith)
        requires
            m > 0,
            v >= 0,
    ;
}

/// Depositing into an active pool and redeeming the minted shares at once
/// never returns more than was deposited, of either asset, where no step of
/// the arithmetic saturates.
pub proof fn lemma_round_trip_returns_at_most_deposit(ru: u128, rv: u128, ts: u128, u: u128, v: u128)
    requires
        ru > 0,
        rv > 0,
        ts > 0,
        u * ts <= u128::MAX,
        v * ts <= u128::MAX,
        ({
            let m = mint_spec(ru as int, rv as int, ts as int, u as int, v as int);
            &&& ts + m <= u128::MAX
            &&& m * (ru + u) <= u128::MAX
            &&& m * (rv + v) <= u128::MAX
        }),
    ensures
        ({
            let m = mint_spec(ru as int, rv as int, ts as int, u as int, v as int);
            &&& redeem_spec(m, ru + u, ts + m) <= u
            &&& redeem_spec(m, rv + v, ts + m) <= v
        }),
{
    let m = mint_spec(ru as int, rv as int, ts as int, u as int, v as int);
    let (a, b, t) = (ru as int, rv as int, ts as int);
    let (x, y) = (u as int, v as int);
    assert(m <= x * t / a && m <= y * t / b);
    assert(m * a <= x * t) by (nonlinear_arith)
        requires
            m <= x * t / a,
            a > 0,
            x * t >= 0,
    ;
    assert(m * b <= y * t) by (nonlinear_arith)
        requires
            m <= y * t / b,
            b > 0,
            y * t >= 0,
    ;
    assert(m >= 0) by (nonlinear_arith)
        requires
            m == mint_spec(a, b, t, x, y),
            a > 0,
            b > 0,
            t > 0,
            x >= 0,
            y >= 0,
    ;
    assert(m * (a + x) / (t + m) <= x) by (nonlinear_arith)
        requires
            m * a <= x * t,
            m >= 0,
            t > 0,
            x >= 0,
    ;
    assert(m * (b + y) / (t + m) <= y) by (nonlinear_arith)
        requires
            m * b <= y * t,
            m >= 0,
            t > 0,
            y >= 0,
    ;
}

} // verus!
