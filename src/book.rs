//! Per-user holdings: shares, available sub-account balances and fee
//! accounting, kept in a vector with unique owner keys.
use vstd::prelude::*;

verus! {

/// What the pool's books hold for one user.
#[derive(Clone, Copy, Debug, PartialEq, Eq, Structural)]
pub struct Holding {
    pub shares: u128,
    /// Balances available in the user's sub-account, not in the pool.
    pub avail_usdc: u128,
    pub avail_usdt: u128,
    /// The global fee growth the user was last settled against.
    pub fee_idx_usdc: u128,
    pub fee_idx_usdt: u128,
    /// Fees settled to the user and not yet claimed.
    pub fee_owed_usdc: u128,
    pub fee_owed_usdt: u128,
}

impl Holding {
    pub open spec fn empty() -> Holding {
        Holding {
            shares: 0,
            avail_usdc: 0,
            avail_usdt: 0,
            fee_idx_usdc: 0,
            fee_idx_usdt: 0,
            fee_owed_usdc: 0,
            fee_owed_usdt: 0,
        }
    }

    pub fn new_empty() -> (r: Holding)
        ensures
            r == Holding::empty(),
    {
        Holding {
            shares: 0,
            avail_usdc: 0,
            avail_usdt: 0,
            fee_idx_usdc: 0,
            fee_idx_usdt: 0,
            fee_owed_usdc: 0,
            fee_owed_usdt: 0,
        }
    }
}

/// A user's row: the owner's principal text and their holding.
#[derive(Debug)]
pub struct UserEntry {
    pub who: String,
    pub holding: Holding,
}

pub open spec fn keys_unique(users: Seq<UserEntry>) -> bool {
    forall|i: int, j: int| 0 <= i < j < users.len() ==> users[i].who@ != users[j].who@
}

pub open spec fn holds_key(users: Seq<UserEntry>, who: Seq<char>, i: int) -> bool {
    0 <= i < users.len() && users[i].who@ == who
}

/// The holding recorded for `who`; a user without a row holds nothing.
pub open spec fn holding_of(users: Seq<UserEntry>, who: Seq<char>) -> Holding {
    if exists|i: int| holds_key(users, who, i) {
        users[choose|i: int| holds_key(users, who, i)].holding
    } else {
        Holding::empty()
    }
}

pub proof fn lemma_holding_at(users: Seq<UserEntry>, i: int)
    requires
        keys_unique(users),
        0 <= i < users.len(),
    ensures
        holding_of(users, users[i].who@) == users[i].holding,
{
    let w = users[i].who@;
    assert(holds_key(users, w, i));
    let j = choose|j: int| holds_key(users, w, j);
    assert(j == i);
}

/// Rewriting a row keeps the keys and changes only that owner's holding.
pub proof fn lemma_holding_update(users: Seq<UserEntry>, i: int, e: UserEntry)
    requires
        keys_unique(users),
        0 <= i < users.len(),
        e.who@ == users[i].who@,
    ensures
        keys_unique(users.update(i, e)),
        forall|w: Seq<char>| #[trigger] holding_of(users.update(i, e), w)
            == if w == e.who@ { e.holding } else { holding_of(users, w) },
{
    let nu = users.update(i, e);
    assert forall|w: Seq<char>| #[trigger] holding_of(nu, w)
        == if w == e.who@ { e.holding } else { holding_of(users, w) } by {
        if w == e.who@ {
            lemma_holding_at(nu, i);
        } else {
            assert forall|k: int| holds_key(nu, w, k) == holds_key(users, w, k) by {}
            if exists|k: int| holds_key(users, w, k) {
                let k = choose|k: int| holds_key(users, w, k);
                lemma_holding_at(users, k);
                lemma_holding_at(nu, k);
            }
        }
    }
}

/// Appending a row for a new owner gives that owner the row's holding.
pub proof fn lemma_holding_push(users: Seq<UserEntry>, e: UserEntry)
    requires
        keys_unique(users),
        forall|k: int| 0 <= k < users.len() ==> users[k].who@ != e.who@,
    ensures
        keys_unique(users.push(e)),
        forall|w: Seq<char>| #[trigger] holding_of(users.push(e), w)
            == if w == e.who@ { e.holding } else { holding_of(users, w) },
{
    let nu = users.push(e);
    assert forall|w: Seq<char>| #[trigger] holding_of(nu, w)
        == if w == e.who@ { e.holding } else { holding_of(users, w) } by {
        if w == e.who@ {
            lemma_holding_at(nu, users.len() as int);
        } else {
            if exists|k: int| holds_key(users, w, k) {
                let k = choose|k: int| holds_key(users, w, k);
                lemma_holding_at(users, k);
                lemma_holding_at(nu, k);
            } else {
                assert forall|k: int| !holds_key(nu, w, k) by {
                    if 0 <= k < users.len() {
                        assert(!holds_key(users, w, k));
                    }
                }
            }
        }
    }
}

/// The plain sum of all users' shares.
pub open spec fn shares_sum(users: Seq<UserEntry>) -> int
    decreases users.len(),
{
    if users.len() == 0 {
        0
    } else {
        shares_sum(users.drop_last()) + users.last().holding.shares
    }
}

pub proof fn lemma_shares_sum_update(users: Seq<UserEntry>, i: int, e: UserEntry)
    requires
        0 <= i < users.len(),
    ensures
        shares_sum(users.update(i, e)) == shares_sum(users) - users[i].holding.shares + e.holding.shares,
    decreases users.len(),
{
    let nu = users.update(i, e);
    if i == users.len() - 1 {
        assert(nu.drop_last() =~= users.drop_last());
    } else {
        assert(nu.drop_last() =~= users.drop_last().update(i, e));
        lemma_shares_sum_update(users.drop_last(), i, e);
    }
}

pub proof fn lemma_share_le_sum(users: Seq<UserEntry>, i: int)
    requires
        0 <= i < users.len(),
    ensures
        users[i].holding.shares <= shares_sum(users),
    decreases users.len(),
{
    lemma_shares_sum_nonneg(users.drop_last());
    if i < users.len() - 1 {
        lemma_share_le_sum(users.drop_last(), i);
        assert(users.drop_last()[i] == users[i]);
    }
}

pub proof fn lemma_shares_sum_nonneg(users: Seq<UserEntry>)
    ensures
        shares_sum(users) >= 0,
    decreases users.len(),
{
    if users.len() > 0 {
        lemma_shares_sum_nonneg(users.drop_last());
    }
}

/// A user's shares are part of the sum of all shares.
pub proof fn lemma_holding_le_sum(users: Seq<UserEntry>, who: Seq<char>)
    requires
        keys_unique(users),
    ensures
        holding_of(users, who).shares <= shares_sum(users),
{
    lemma_shares_sum_nonneg(users);
    if exists|k: int| holds_key(users, who, k) {
        let k = choose|k: int| holds_key(users, who, k);
        lemma_share_le_sum(users, k);
    }
}

/// The index of `who`'s row, if there is one.
pub fn find_user(users: &Vec<UserEntry>, who: &String) -> (r: Option<usize>)
    ensures
        match r {
            Some(i) => holds_key(users@, who@, i as int),
            None => forall|k: int| !holds_key(users@, who@, k),
        },
{
    let mut i: usize = 0;
    while i < users.len()
        invariant
            i <= users@.len(),
            forall|k: int| 0 <= k < i ==> !holds_key(users@, who@, k),
        decreases users@.len() - i,
    {
        if users[i].who == *who {
            return Some(i);
        }
        i = i + 1;
    }
    None
}

/// The holding recorded for `who`.
pub fn holding_for(users: &Vec<UserEntry>, who: &String) -> (r: Holding)
    requires
        keys_unique(users@),
    ensures
        r == holding_of(users@, who@),
{
    match find_user(users, who) {
        Some(i) => {
            proof {
                lemma_holding_at(users@, i as int);
            }
            users[i].holding
        },
        None => Holding::new_empty(),
    }
}

/// Records `h` as `who`'s holding, adding a row if there is none.
pub fn put_holding(users: &mut Vec<UserEntry>, who: &String, h: Holding)
    requires
        keys_unique(old(users)@),
    ensures
        keys_unique(final(users)@),
        shares_sum(final(users)@) == shares_sum(old(users)@) - holding_of(old(users)@, who@).shares + h.shares,
        forall|w: Seq<char>| #[trigger] holding_of(final(users)@, w)
            == if w == who@ { h } else { holding_of(old(users)@, w) },
{
    let e = UserEntry { who: who.clone(), holding: h };
    match find_user(users, who) {
        Some(i) => {
            proof {
                lemma_holding_update(users@, i as int, e);
                lemma_holding_at(users@, i as int);
                lemma_shares_sum_update(users@, i as int, e);
            }
            users.set(i, e);
        },
        None => {
            proof {
                assert forall|k: int| 0 <= k < users@.len() implies users@[k].who@ != e.who@ by {
                    assert(!holds_key(users@, who@, k));
                }
                lemma_holding_push(users@, e);
                assert(users@.push(e).drop_last() =~= users@);
                assert(holding_of(users@, who@) == Holding::empty());
            }
            users.push(e);
        },
    }
}

} // verus!
