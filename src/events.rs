//! The append-only activity log, trimmed to its newest `MAX_EVENTS` entries.
use crate::arith::{mul_sat, sat_sub, sat_u128};
use crate::types::{AmountE6, TokenId};
use vstd::prelude::*;

verus! {

#[derive(Clone, Debug, PartialEq, Eq)]
pub enum Event {
    Swap { who: String, dx_e6: AmountE6, dy_e6: AmountE6, ts: u64 },
    AddLiq { who: String, usdc: AmountE6, usdt: AmountE6, shares: AmountE6, ts: u64 },
    RemoveLiq { who: String, shares: AmountE6, usdc: AmountE6, usdt: AmountE6, ts: u64 },
    Deposit { who: String, token: TokenId, amount: AmountE6, ts: u64 },
    Withdraw { who: String, token: TokenId, amount: AmountE6, ts: u64 },
}

/// How many events the log keeps.
pub const MAX_EVENTS: usize = 2000;

/// The newest `MAX_EVENTS` entries of `s`.
pub open spec fn trimmed(s: Seq<Event>) -> Seq<Event> {
    if s.len() > MAX_EVENTS {
        s.subrange(s.len() - MAX_EVENTS, s.len() as int)
    } else {
        s
    }
}

pub open spec fn min_nat(a: int, b: int) -> int {
    if a <= b { a } else { b }
}

/// A copy of an event, field for field.
pub fn copy_event(e: &Event) -> (r: Event)
    ensures
        r == *e,
{
    match e {
        Event::Swap { who, dx_e6, dy_e6, ts } => Event::Swap { who: who.clone(), dx_e6: *dx_e6, dy_e6: *dy_e6, ts: *ts },
        Event::AddLiq { who, usdc, usdt, shares, ts } => Event::AddLiq {
            who: who.clone(),
            usdc: *usdc,
            usdt: *usdt,
            shares: *shares,
            ts: *ts,
        },
        Event::RemoveLiq { who, shares, usdc, usdt, ts } => Event::RemoveLiq {
            who: who.clone(),
            shares: *shares,
            usdc: *usdc,
            usdt: *usdt,
            ts: *ts,
        },
        Event::Deposit { who, token, amount, ts } => Event::Deposit { who: who.clone(), token: *token, amount: *amount, ts: *ts },
        Event::Withdraw { who, token, amount, ts } => Event::Withdraw { who: who.clone(), token: *token, amount: *amount, ts: *ts },
    }
}

/// Appends `ev` and drops the oldest entries beyond `MAX_EVENTS`.
pub fn push(events: &mut Vec<Event>, ev: Event)
    ensures
        final(events)@ == trimmed(old(events)@.push(ev)),
{
    events.push(ev);
    let ghost full = events@;
    let ghost k: int = 0;
    while events.len() > MAX_EVENTS
        invariant
            0 <= k <= full.len(),
            events@ == full.subrange(k, full.len() as int),
            full.len() > MAX_EVENTS ==> k <= full.len() - MAX_EVENTS,
            full.len() <= MAX_EVENTS ==> k == 0,
        decreases events@.len(),
    {
        events.remove(0);
        proof {
            k = k + 1;
        }
    }
    proof {
        if full.len() <= MAX_EVENTS {
            assert(events@ =~= full);
        } else {
            assert(events@ =~= full.subrange(full.len() - MAX_EVENTS, full.len() as int));
        }
    }
}

/// The events from index `cursor` on, at most `limit` of them.
pub fn get_events(events: &Vec<Event>, cursor: u128, limit: u128) -> (r: Vec<Event>)
    ensures
        ({
            let st = min_nat(cursor as int, events@.len() as int);
            let en = min_nat(st + limit, events@.len() as int);
            r@ == events@.subrange(st, en)
        }),
{
    let len = events.len();
    let st: usize = if cursor < len as u128 { cursor as usize } else { len };
    let en: usize = if limit < (len - st) as u128 { st + limit as usize } else { len };
    copy_range(events, st, en)
}

/// The newest `limit` events, oldest first.
pub fn get_events_latest(events: &Vec<Event>, limit: u128) -> (r: Vec<Event>)
    ensures
        r@ == events@.subrange(events@.len() - min_nat(limit as int, events@.len() as int), events@.len() as int),
{
    let len = events.len();
    let start: usize = if (len as u128) > limit { len - limit as usize } else { 0 };
    copy_range(events, start, len)
}

fn copy_range(events: &Vec<Event>, st: usize, en: usize) -> (r: Vec<Event>)
    requires
        st <= en <= events@.len(),
    ensures
        r@ == events@.subrange(st as int, en as int),
{
    let mut out: Vec<Event> = Vec::new();
    let mut i: usize = st;
    while i < en
        invariant
            st <= i <= en,
            en <= events@.len(),
            out@ == events@.subrange(st as int, i as int),
        decreases en - i,
    {
        let e = copy_event(&events[i]);
        out.push(e);
        proof {
            assert(out@ =~= events@.subrange(st as int, i + 1));
        }
        i = i + 1;
    }
    out
}

/// The volume of the swaps logged at or after `cutoff`, scanning back from
/// the newest entry and stopping at the first older swap; each swap counts
/// `(dx + dy) / 2`.
pub open spec fn recent_swap_volume(s: Seq<Event>, cutoff: int) -> int
    decreases s.len(),
{
    if s.len() == 0 {
        0
    } else {
        match s.last() {
            Event::Swap { dx_e6, dy_e6, ts, .. } => {
                if ts < cutoff {
                    0
                } else {
                    recent_swap_volume(s.drop_last(), cutoff) + sat_u128(dx_e6 + dy_e6) / 2
                }
            },
            _ => recent_swap_volume(s.drop_last(), cutoff),
        }
    }
}

proof fn lemma_recent_swap_volume_nonneg(s: Seq<Event>, cutoff: int)
    ensures
        recent_swap_volume(s, cutoff) >= 0,
    decreases s.len(),
{
    if s.len() > 0 {
        lemma_recent_swap_volume_nonneg(s.drop_last(), cutoff);
    }
}

/// The window of the volume estimate, in minutes: `window_minutes` held to `[1, 120]`.
pub open spec fn volume_window(window_minutes: int) -> int {
    if window_minutes < 1 { 1 } else if window_minutes > 120 { 120 } else { window_minutes }
}

/// A day's volume extrapolated from the swaps of the last `window_minutes`
/// (held to `[1, 120]`) before `now_sec`.
pub fn get_estimated_24h_volume(events: &Vec<Event>, now_sec: u64, window_minutes: u32) -> (r: u128)
    ensures
        ({
            let w = volume_window(window_minutes as int);
            let v = sat_u128(recent_swap_volume(events@, sat_sub(now_sec as int, w * 60)));
            r == sat_u128(v * (1440int / w))
        }),
{
    let w: u64 = if window_minutes < 1 { 1 } else if window_minutes > 120 { 120 } else { window_minutes as u64 };
    let cutoff = now_sec.saturating_sub(w * 60);
    let mut vol: u128 = 0;
    let ghost mut plain: int = 0;
    let mut i: usize = events.len();
    let mut done = false;
    proof {
        assert(events@.subrange(0, i as int) =~= events@);
    }
    while i > 0 && !done
        invariant
            i <= events@.len(),
            plain >= 0,
            done ==> recent_swap_volume(events@.subrange(0, i as int), cutoff as int) == 0,
            vol == sat_u128(plain),
            recent_swap_volume(events@, cutoff as int)
                == plain + recent_swap_volume(events@.subrange(0, i as int), cutoff as int),
        decreases i + (if done { 0int } else { 1int }),
    {
        let ghost pre = events@.subrange(0, i as int);
        proof {
            assert(pre.drop_last() =~= events@.subrange(0, i - 1));
            lemma_recent_swap_volume_nonneg(pre.drop_last(), cutoff as int);
        }
        match &events[i - 1] {
            Event::Swap { dx_e6, dy_e6, ts, .. } => {
                if *ts < cutoff {
                    done = true;
                } else {
                    let v = dx_e6.saturating_add(*dy_e6) / 2;
                    vol = vol.saturating_add(v);
                    proof {
                        plain = plain + v;
                    }
                    i = i - 1;
                }
            },
            _ => {
                i = i - 1;
            },
        }
    }
    proof {
        if i == 0 {
            assert(events@.subrange(0, 0) =~= Seq::<Event>::empty());
        }
    }
    let scale: u128 = 1440 / (w as u128);
    mul_sat(vol, scale)
}

} // verus!
