//! Per-user, per-token balances at the internal scale: what is available,
//! and what is reserved for liquidity.
use crate::arith::{sat_sub, sat_u128};
use crate::error::Error;
use crate::types::TokenId;
use vstd::prelude::*;

verus! {

#[derive(Clone, Copy, Debug, PartialEq, Eq, Structural)]
pub struct UserTokenRow {
    pub avail: u128,
    pub reserved: u128,
}

#[derive(Debug)]
pub struct BookRow {
    pub who: String,
    pub token: TokenId,
    pub row: UserTokenRow,
}

/// Rows keyed by owner and token, each key at most once.
#[derive(Debug)]
pub struct LedgerBook {
    pub rows: Vec<BookRow>,
}

pub open spec fn zero_row() -> UserTokenRow {
    UserTokenRow { avail: 0, reserved: 0 }
}

pub open spec fn has_key(rows: Seq<BookRow>, who: Seq<char>, t: TokenId, i: int) -> bool {
    0 <= i < rows.len() && rows[i].who@ == who && rows[i].token == t
}

pub open spec fn rows_unique(rows: Seq<BookRow>) -> bool {
    forall|i: int, j: int| 0 <= i < j < rows.len() ==> !(rows[i].who@ == rows[j].who@ && rows[i].token == rows[j].token)
}

/// The row of `(who, t)`; a key without a row holds nothing.
pub open spec fn row_of(rows: Seq<BookRow>, who: Seq<char>, t: TokenId) -> UserTokenRow {
    if exists|i: int| has_key(rows, who, t, i) {
        rows[choose|i: int| has_key(rows, who, t, i)].row
    } else {
        zero_row()
    }
}

proof fn lemma_row_at(rows: Seq<BookRow>, i: int)
    requires
        rows_unique(rows),
        0 <= i < rows.len(),
    ensures
        row_of(rows, rows[i].who@, rows[i].token) == rows[i].row,
{
    assert(has_key(rows, rows[i].who@, rows[i].token, i));
    let j = choose|j: int| has_key(rows, rows[i].who@, rows[i].token, j);
    assert(j == i);
}

/// The decimals that a token's smallest unit has, over the internal six.
pub open spec fn to_e6_spec(tok: TokenId, min_unit: int) -> int {
    if tok == TokenId::USDC || tok == TokenId::USDT { min_unit } else { min_unit / 100 }
}

/// A token's smallest units at the internal scale: stable coins carry six
/// decimals, ICP and BOB eight.
pub fn to_e6(tok: TokenId, min_unit: u128) -> (r: u128)
    ensures
        r == to_e6_spec(tok, min_unit as int),
{
    match tok {
        TokenId::USDC | TokenId::USDT => min_unit,
        TokenId::ICP | TokenId::BOB => min_unit / 100,
    }
}

impl LedgerBook {
    pub open spec fn wf(&self) -> bool {
        rows_unique(self.rows@)
    }

    pub open spec fn row(&self, who: Seq<char>, t: TokenId) -> UserTokenRow {
        row_of(self.rows@, who, t)
    }

    /// `new` holds `r` at `(who, t)` and agrees with `self` elsewhere.
    pub open spec fn set(&self, new: &LedgerBook, who: Seq<char>, t: TokenId, r: UserTokenRow) -> bool {
        &&& new.wf()
        &&& forall|w: Seq<char>, u: TokenId| #[trigger] new.row(w, u) == if w == who && u == t { r } else { self.row(w, u) }
    }

    pub fn new() -> (r: LedgerBook)
        ensures
            r.wf(),
            forall|w: Seq<char>, u: TokenId| #[trigger] r.row(w, u) == zero_row(),
    {
        LedgerBook { rows: Vec::new() }
    }

    fn find(&self, who: &String, t: TokenId) -> (r: Option<usize>)
        ensures
            match r {
                Some(i) => has_key(self.rows@, who@, t, i as int),
                None => forall|k: int| !has_key(self.rows@, who@, t, k),
            },
    {
        let mut i: usize = 0;
        while i < self.rows.len()
            invariant
                i <= self.rows@.len(),
                forall|k: int| 0 <= k < i ==> !has_key(self.rows@, who@, t, k),
            decreases self.rows@.len() - i,
        {
            if self.rows[i].who == *who && self.rows[i].token == t {
                return Some(i);
            }
            i = i + 1;
        }
        None
    }

    fn get_row(&self, who: &String, t: TokenId) -> (r: UserTokenRow)
        requires
            self.wf(),
        ensures
            r == self.row(who@, t),
    {
        match self.find(who, t) {
            Some(i) => {
                proof {
                    lemma_row_at(self.rows@, i as int);
                }
                self.rows[i].row
            },
            None => UserTokenRow { avail: 0, reserved: 0 },
        }
    }

    fn set_row(&mut self, who: &String, t: TokenId, r: UserTokenRow)
        requires
            old(self).wf(),
        ensures
            old(self).set(final(self), who@, t, r),
    {
        let e = BookRow { who: who.clone(), token: t, row: r };
        let ghost rows0 = self.rows@;
        match self.find(who, t) {
            Some(i) => {
                self.rows.set(i, e);
                proof {
                    let nr = self.rows@;
                    assert(nr == rows0.update(i as int, e));
                    assert(rows_unique(nr)) by {
                        assert forall|a: int, b: int| 0 <= a < b < nr.len() implies !(nr[a].who@ == nr[b].who@ && nr[a].token == nr[b].token) by {
                            if a != i && b != i {
                                assert(nr[a] == rows0[a] && nr[b] == rows0[b]);
                            }
                        }
                    }
                    assert forall|w: Seq<char>, u: TokenId| #[trigger] row_of(nr, w, u) == if w == who@ && u == t { r } else { row_of(rows0, w, u) } by {
                        if w == who@ && u == t {
                            lemma_row_at(nr, i as int);
                        } else {
                            assert forall|k: int| has_key(nr, w, u, k) == has_key(rows0, w, u, k) by {}
                            if exists|k: int| has_key(rows0, w, u, k) {
                                let k = choose|k: int| has_key(rows0, w, u, k);
                                lemma_row_at(rows0, k);
                                lemma_row_at(nr, k);
                            }
                        }
                    }
                }
            },
            None => {
                self.rows.push(e);
                proof {
                    let nr = self.rows@;
                    assert(nr == rows0.push(e));
                    assert(rows_unique(nr)) by {
                        assert forall|a: int, b: int| 0 <= a < b < nr.len() implies !(nr[a].who@ == nr[b].who@ && nr[a].token == nr[b].token) by {
                            if b == rows0.len() {
                                assert(!has_key(rows0, who@, t, a));
                            } else {
                                assert(nr[a] == rows0[a] && nr[b] == rows0[b]);
                            }
                        }
                    }
                    assert forall|w: Seq<char>, u: TokenId| #[trigger] row_of(nr, w, u) == if w == who@ && u == t { r } else { row_of(rows0, w, u) } by {
                        if w == who@ && u == t {
                            lemma_row_at(nr, rows0.len() as int);
                        } else if exists|k: int| has_key(rows0, w, u, k) {
                            let k = choose|k: int| has_key(rows0, w, u, k);
                            lemma_row_at(rows0, k);
                            assert(nr[k] == rows0[k]);
                            lemma_row_at(nr, k);
                        } else {
                            assert forall|k: int| !has_key(nr, w, u, k) by {
                                if 0 <= k < rows0.len() {
                                    assert(nr[k] == rows0[k]);
                                    assert(!has_key(rows0, w, u, k));
                                }
                            }
                        }
                    }
                }
            },
        }
    }

    pub fn available(&self, who: &String, t: TokenId) -> (r: u128)
        requires
            self.wf(),
        ensures
            r == self.row(who@, t).avail,
    {
        self.get_row(who, t).avail
    }

    pub fn reserved(&self, who: &String, t: TokenId) -> (r: u128)
        requires
            self.wf(),
        ensures
            r == self.row(who@, t).reserved,
    {
        self.get_row(who, t).reserved
    }

    /// Takes `amt` from the available balance; fails, changing nothing, when
    /// less is available.
    pub fn debit_available(&mut self, who: &String, t: TokenId, amt: u128) -> (r: Result<(), Error>)
        requires
            old(self).wf(),
        ensures
            ({
                let row = old(self).row(who@, t);
                if row.avail < amt {
                    r == Err::<(), Error>(Error::BalanceTooLow) && *final(self) == *old(self)
                } else {
                    r == Ok::<(), Error>(()) && old(self).set(final(self), who@, t, UserTokenRow { avail: (row.avail - amt) as u128, ..row })
                }
            }),
    {
        let row = self.get_row(who, t);
        if row.avail < amt {
            return Err(Error::BalanceTooLow);
        }
        self.set_row(who, t, UserTokenRow { avail: row.avail - amt, ..row });
        Ok(())
    }

    /// Adds `amt` to the available balance, saturating.
    pub fn credit_available(&mut self, who: &String, t: TokenId, amt: u128)
        requires
            old(self).wf(),
        ensures
            ({
                let row = old(self).row(who@, t);
                old(self).set(final(self), who@, t, UserTokenRow { avail: sat_u128(row.avail + amt) as u128, ..row })
            }),
    {
        let row = self.get_row(who, t);
        self.set_row(who, t, UserTokenRow { avail: row.avail.saturating_add(amt), ..row });
    }

    /// Moves `amt` from available to reserved; fails, changing nothing, when
    /// less is available.
    pub fn reserve_for_lp(&mut self, who: &String, t: TokenId, amt: u128) -> (r: Result<(), Error>)
        requires
            old(self).wf(),
        ensures
            ({
                let row = old(self).row(who@, t);
                if row.avail < amt {
                    r == Err::<(), Error>(Error::BalanceTooLow) && *final(self) == *old(self)
                } else {
                    r == Ok::<(), Error>(()) && old(self).set(final(self), who@, t, UserTokenRow {
                        avail: (row.avail - amt) as u128,
                        reserved: sat_u128(row.reserved + amt) as u128,
                    })
                }
            }),
    {
        let row = self.get_row(who, t);
        if row.avail < amt {
            return Err(Error::BalanceTooLow);
        }
        self.set_row(who, t, UserTokenRow { avail: row.avail - amt, reserved: row.reserved.saturating_add(amt) });
        Ok(())
    }

    /// Moves `amt` from reserved back to available; fails, changing nothing,
    /// when less is reserved.
    pub fn release_from_lp(&mut self, who: &String, t: TokenId, amt: u128) -> (r: Result<(), Error>)
        requires
            old(self).wf(),
        ensures
            ({
                let row = old(self).row(who@, t);
                if row.reserved < amt {
                    r == Err::<(), Error>(Error::BalanceTooLow) && *final(self) == *old(self)
                } else {
                    r == Ok::<(), Error>(()) && old(self).set(final(self), who@, t, UserTokenRow {
                        reserved: (row.reserved - amt) as u128,
                        avail: sat_u128(row.avail + amt) as u128,
                    })
                }
            }),
    {
        let row = self.get_row(who, t);
        if row.reserved < amt {
            return Err(Error::BalanceTooLow);
        }
        self.set_row(who, t, UserTokenRow { reserved: row.reserved - amt, avail: row.avail.saturating_add(amt) });
        Ok(())
    }

    /// Overwrites the available balance.
    pub fn set_available(&mut self, who: &String, t: TokenId, amt_e6: u128)
        requires
            old(self).wf(),
        ensures
            old(self).set(final(self), who@, t, UserTokenRow { avail: amt_e6, ..old(self).row(who@, t) }),
    {
        let row = self.get_row(who, t);
        self.set_row(who, t, UserTokenRow { avail: amt_e6, ..row });
    }

    /// Reconciles with a balance read from the token's ledger, in its
    /// smallest units: what is not reserved is available, never below zero.
    pub fn sync_available(&mut self, who: &String, t: TokenId, onchain_min_unit: u128)
        requires
            old(self).wf(),
        ensures
            ({
                let row = old(self).row(who@, t);
                old(self).set(final(self), who@, t, UserTokenRow {
                    avail: sat_sub(to_e6_spec(t, onchain_min_unit as int), row.reserved as int) as u128,
                    ..row
                })
            }),
    {
        let onchain_e6 = to_e6(t, onchain_min_unit);
        let row = self.get_row(who, t);
        self.set_row(who, t, UserTokenRow { avail: onchain_e6.saturating_sub(row.reserved), ..row });
    }

    /// The available balance of each token, in the order USDC, USDT, ICP, BOB.
    pub fn get_available_all(&self, who: &String) -> (r: Vec<(TokenId, u128)>)
        requires
            self.wf(),
        ensures
            r@ == seq![
                (TokenId::USDC, self.row(who@, TokenId::USDC).avail),
                (TokenId::USDT, self.row(who@, TokenId::USDT).avail),
                (TokenId::ICP, self.row(who@, TokenId::ICP).avail),
                (TokenId::BOB, self.row(who@, TokenId::BOB).avail),
            ],
    {
        let mut out: Vec<(TokenId, u128)> = Vec::new();
        out.push((TokenId::USDC, self.available(who, TokenId::USDC)));
        out.push((TokenId::USDT, self.available(who, TokenId::USDT)));
        out.push((TokenId::ICP, self.available(who, TokenId::ICP)));
        out.push((TokenId::BOB, self.available(who, TokenId::BOB)));
        proof {
            assert(out@ =~= seq![
                (TokenId::USDC, self.row(who@, TokenId::USDC).avail),
                (TokenId::USDT, self.row(who@, TokenId::USDT).avail),
                (TokenId::ICP, self.row(who@, TokenId::ICP).avail),
                (TokenId::BOB, self.row(who@, TokenId::BOB).avail),
            ]);
        }
        out
    }

    /// The reserved balance of each token, in the order USDC, USDT, ICP, BOB.
    pub fn get_reserved_all(&self, who: &String) -> (r: Vec<(TokenId, u128)>)
        requires
            self.wf(),
        ensures
            r@ == seq![
                (TokenId::USDC, self.row(who@, TokenId::USDC).reserved),
                (TokenId::USDT, self.row(who@, TokenId::USDT).reserved),
                (TokenId::ICP, self.row(who@, TokenId::ICP).reserved),
                (TokenId::BOB, self.row(who@, TokenId::BOB).reserved),
            ],
    {
        let mut out: Vec<(TokenId, u128)> = Vec::new();
        out.push((TokenId::USDC, self.reserved(who, TokenId::USDC)));
        out.push((TokenId::USDT, self.reserved(who, TokenId::USDT)));
        out.push((TokenId::ICP, self.reserved(who, TokenId::ICP)));
        out.push((TokenId::BOB, self.reserved(who, TokenId::BOB)));
        proof {
            assert(out@ =~= seq![
                (TokenId::USDC, self.row(who@, TokenId::USDC).reserved),
                (TokenId::USDT, self.row(who@, TokenId::USDT).reserved),
                (TokenId::ICP, self.row(who@, TokenId::ICP).reserved),
                (TokenId::BOB, self.row(who@, TokenId::BOB).reserved),
            ]);
        }
        out
    }
}

} // verus!
