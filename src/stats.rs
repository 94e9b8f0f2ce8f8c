//! Hourly trading statistics over a rolling week, kept in a ring of buckets
//! that starts at `base_hour`.
use crate::arith::{mul_sat, sat_sub, sat_u128};
use crate::pool::Pool;
use crate::types::StatsSnapshot;
use vstd::prelude::*;

verus! {

/// Hours in the ring: seven days.
pub const HOURS_RING: usize = 168;

pub const SECS_PER_HOUR: u64 = 3600;

#[derive(Clone, Copy, Debug, PartialEq, Eq, Structural)]
pub struct HourBucket {
    /// The hour, as seconds / 3600.
    pub ts_hour: u64,
    /// Traded volume, counted as `(dx + dy) / 2` per swap.
    pub volume_e6: u128,
    /// Input-side fees.
    pub fee_e6: u128,
    pub swaps: u32,
}

#[derive(Clone, Debug)]
pub struct RollingStats {
    pub base_hour: u64,
    pub buckets: Vec<HourBucket>,
}

pub open spec fn fresh(h: int) -> HourBucket {
    HourBucket { ts_hour: h as u64, volume_e6: 0, fee_e6: 0, swaps: 0 }
}

pub open spec fn sat_u32(x: int) -> int {
    if x > u32::MAX { u32::MAX as int } else { x }
}

/// The buckets of a ring that starts at `base`, all empty.
pub open spec fn reset_buckets(base: int) -> Seq<HourBucket> {
    Seq::new(HOURS_RING as nat, |i: int| fresh(base + i))
}

/// The ring moved to cover `hour_now`: reset when `hour_now` lies outside
/// the week around it, else each bucket that does not carry its hour is
/// emptied.
pub open spec fn advanced(base: int, buckets: Seq<HourBucket>, hour_now: int) -> (int, Seq<HourBucket>) {
    if hour_now + HOURS_RING < base || hour_now >= base + HOURS_RING {
        (hour_now - HOURS_RING + 1, reset_buckets(hour_now - HOURS_RING + 1))
    } else {
        (base, Seq::new(HOURS_RING as nat, |i: int| if buckets[i].ts_hour == base + i { buckets[i] } else { fresh(base + i) }))
    }
}

/// `(volume, fees, swaps)` of the buckets whose hour lies in `[lo, hi]`.
pub open spec fn window_sum(buckets: Seq<HourBucket>, lo: int, hi: int) -> (int, int, int)
    decreases buckets.len(),
{
    if buckets.len() == 0 {
        (0, 0, 0)
    } else {
        let rest = window_sum(buckets.drop_last(), lo, hi);
        let b = buckets.last();
        if lo <= b.ts_hour <= hi {
            (rest.0 + b.volume_e6, rest.1 + b.fee_e6, rest.2 + b.swaps)
        } else {
            rest
        }
    }
}

/// The bucket that `series` reports `i` hours back from `hour_now`.
pub open spec fn series_at(base: int, buckets: Seq<HourBucket>, hour_now: int, i: int) -> HourBucket {
    let h = sat_sub(hour_now, i);
    if h >= base && h - base < HOURS_RING { buckets[h - base] } else { fresh(h) }
}

proof fn lemma_window_sum_nonneg(buckets: Seq<HourBucket>, lo: int, hi: int)
    ensures
        window_sum(buckets, lo, hi).0 >= 0,
        window_sum(buckets, lo, hi).1 >= 0,
        window_sum(buckets, lo, hi).2 >= 0,
    decreases buckets.len(),
{
    if buckets.len() > 0 {
        lemma_window_sum_nonneg(buckets.drop_last(), lo, hi);
    }
}

impl Default for RollingStats {
    /// A ring at hour 0 with empty buckets.
    fn default() -> (r: RollingStats)
        ensures
            r.wf(),
            r.base_hour == 0,
            r.buckets@ == Seq::new(HOURS_RING as nat, |i: int| fresh(0)),
    {
        let mut buckets: Vec<HourBucket> = Vec::new();
        let mut i: usize = 0;
        while i < HOURS_RING
            invariant
                i <= HOURS_RING,
                buckets@ == Seq::new(i as nat, |k: int| fresh(0)),
            decreases HOURS_RING - i,
        {
            buckets.push(HourBucket { ts_hour: 0, volume_e6: 0, fee_e6: 0, swaps: 0 });
            proof {
                assert(buckets@ =~= Seq::new(i as nat + 1, |k: int| fresh(0)));
            }
            i = i + 1;
        }
        RollingStats { base_hour: 0, buckets }
    }
}

impl RollingStats {
    pub open spec fn wf(&self) -> bool {
        &&& self.buckets@.len() == HOURS_RING
        &&& self.base_hour + HOURS_RING <= u64::MAX
    }

    /// A ring whose newest hour is the hour of `now_sec`.
    pub fn with_now(now_sec: u64) -> (r: RollingStats)
        requires
            now_sec / SECS_PER_HOUR >= HOURS_RING - 1,
        ensures
            r.wf(),
            r.base_hour == now_sec / SECS_PER_HOUR - HOURS_RING + 1,
            r.buckets@ == reset_buckets(r.base_hour as int),
    {
        let mut rs = RollingStats::default();
        rs.reset_all(now_sec / SECS_PER_HOUR);
        rs
    }

    fn reset_all(&mut self, hour_now: u64)
        requires
            old(self).buckets@.len() == HOURS_RING,
            hour_now >= HOURS_RING - 1,
            hour_now <= u64::MAX / SECS_PER_HOUR,
        ensures
            final(self).wf(),
            final(self).base_hour == hour_now - HOURS_RING + 1,
            final(self).buckets@ == reset_buckets(final(self).base_hour as int),
    {
        self.base_hour = hour_now + 1 - (HOURS_RING as u64);
        let mut i: usize = 0;
        while i < HOURS_RING
            invariant
                i <= HOURS_RING,
                self.buckets@.len() == HOURS_RING,
                self.base_hour == hour_now - HOURS_RING + 1,
                hour_now >= HOURS_RING - 1,
                forall|k: int| 0 <= k < i ==> self.buckets@[k] == fresh(self.base_hour + k),
            decreases HOURS_RING - i,
        {
            let b = HourBucket { ts_hour: self.base_hour + i as u64, volume_e6: 0, fee_e6: 0, swaps: 0 };
            self.buckets.set(i, b);
            i = i + 1;
        }
        assert(self.buckets@ =~= reset_buckets(self.base_hour as int));
    }

    fn ensure_advanced(&mut self, hour_now: u64)
        requires
            old(self).wf(),
            hour_now >= HOURS_RING - 1,
            hour_now <= u64::MAX / SECS_PER_HOUR,
        ensures
            final(self).wf(),
            (final(self).base_hour as int, final(self).buckets@)
                == advanced(old(self).base_hour as int, old(self).buckets@, hour_now as int),
    {
        let ring = HOURS_RING as u64;
        if hour_now + ring < self.base_hour || hour_now >= self.base_hour + ring {
            self.reset_all(hour_now);
            return;
        }
        let ghost old_b = self.buckets@;
        let mut i: usize = 0;
        while i < HOURS_RING
            invariant
                i <= HOURS_RING,
                self.wf(),
                self.base_hour == old(self).base_hour,
                old_b == old(self).buckets@,
                forall|k: int| 0 <= k < i ==> self.buckets@[k] == (if old_b[k].ts_hour == self.base_hour + k { old_b[k] } else { fresh(self.base_hour + k) }),
                forall|k: int| i <= k < HOURS_RING ==> self.buckets@[k] == old_b[k],
            decreases HOURS_RING - i,
        {
            let h = self.base_hour + i as u64;
            if self.buckets[i].ts_hour != h {
                self.buckets.set(i, HourBucket { ts_hour: h, volume_e6: 0, fee_e6: 0, swaps: 0 });
            }
            i = i + 1;
        }
        assert(self.buckets@ =~= advanced(old(self).base_hour as int, old_b, hour_now as int).1);
    }

    /// Counts one swap in the bucket of `now_sec`, after moving the ring to
    /// cover that hour. An hour before the ring's start is not counted.
    pub fn record_swap(&mut self, now_sec: u64, dx_e6: u128, dy_e6: u128, fee_e6: u128)
        requires
            old(self).wf(),
            now_sec / SECS_PER_HOUR >= HOURS_RING - 1,
        ensures
            final(self).wf(),
            ({
                let h = now_sec / SECS_PER_HOUR;
                let (base, bs) = advanced(old(self).base_hour as int, old(self).buckets@, h as int);
                &&& final(self).base_hour == base
                &&& if h < base {
                    final(self).buckets@ == bs
                } else {
                    let i = h - base;
                    let b = bs[i];
                    final(self).buckets@ == bs.update(i, HourBucket {
                        volume_e6: sat_u128(b.volume_e6 + sat_u128(dx_e6 + dy_e6) / 2) as u128,
                        fee_e6: sat_u128(b.fee_e6 + fee_e6) as u128,
                        swaps: sat_u32(b.swaps + 1) as u32,
                        ..b
                    })
                }
            }),
    {
        let hour_now = now_sec / SECS_PER_HOUR;
        self.ensure_advanced(hour_now);
        if hour_now < self.base_hour {
            return;
        }
        let idx = (hour_now - self.base_hour) as usize;
        let b = self.buckets[idx];
        let vol = dx_e6.saturating_add(dy_e6) / 2;
        let nb = HourBucket {
            volume_e6: b.volume_e6.saturating_add(vol),
            fee_e6: b.fee_e6.saturating_add(fee_e6),
            swaps: b.swaps.saturating_add(1),
            ..b
        };
        self.buckets.set(idx, nb);
    }

    /// `(volume, fees, swaps)` of the last `hours` hours up to the hour of
    /// `now_sec`, each sum saturated.
    pub fn sum_last_hours(&self, now_sec: u64, hours: u32) -> (r: (u128, u128, u32))
        requires
            hours >= 1,
        ensures
            ({
                let h = now_sec / SECS_PER_HOUR;
                let w = window_sum(self.buckets@, sat_sub(h as int, hours - 1), h as int);
                r == (sat_u128(w.0) as u128, sat_u128(w.1) as u128, sat_u32(w.2) as u32)
            }),
    {
        let hour_now = now_sec / SECS_PER_HOUR;
        let start_hour = hour_now.saturating_sub(hours as u64 - 1);
        let mut vol: u128 = 0;
        let mut fee: u128 = 0;
        let mut swaps: u32 = 0;
        let mut i: usize = 0;
        while i < self.buckets.len()
            invariant
                i <= self.buckets@.len(),
                start_hour == sat_sub(hour_now as int, hours - 1),
                ({
                    let w = window_sum(self.buckets@.subrange(0, i as int), start_hour as int, hour_now as int);
                    vol == sat_u128(w.0) && fee == sat_u128(w.1) && swaps == sat_u32(w.2)
                }),
            decreases self.buckets@.len() - i,
        {
            proof {
                let sub = self.buckets@.subrange(0, i as int + 1);
                assert(sub.drop_last() =~= self.buckets@.subrange(0, i as int));
                lemma_window_sum_nonneg(self.buckets@.subrange(0, i as int), start_hour as int, hour_now as int);
            }
            let b = self.buckets[i];
            if b.ts_hour >= start_hour && b.ts_hour <= hour_now {
                vol = vol.saturating_add(b.volume_e6);
                fee = fee.saturating_add(b.fee_e6);
                swaps = swaps.saturating_add(b.swaps);
            }
            i = i + 1;
        }
        proof {
            assert(self.buckets@.subrange(0, self.buckets@.len() as int) =~= self.buckets@);
        }
        (vol, fee, swaps)
    }

    /// The buckets of the last `min(hours, HOURS_RING)` hours, newest first;
    /// an hour outside the ring is reported empty.
    pub fn series(&self, now_sec: u64, hours: u32) -> (r: Vec<HourBucket>)
        requires
            self.wf(),
        ensures
            r@ == Seq::new(
                (if hours < HOURS_RING { hours as int } else { HOURS_RING as int }) as nat,
                |i: int| series_at(self.base_hour as int, self.buckets@, (now_sec / SECS_PER_HOUR) as int, i),
            ),
    {
        let hour_now = now_sec / SECS_PER_HOUR;
        let want: usize = if (hours as usize) < HOURS_RING { hours as usize } else { HOURS_RING };
        let mut out: Vec<HourBucket> = Vec::new();
        let mut i: usize = 0;
        while i < want
            invariant
                i <= want,
                want <= HOURS_RING,
                want == (if hours < HOURS_RING { hours as int } else { HOURS_RING as int }),
                self.wf(),
                out@.len() == i,
                forall|k: int| 0 <= k < i ==> out@[k] == series_at(self.base_hour as int, self.buckets@, hour_now as int, k),
            decreases want - i,
        {
            let h = hour_now.saturating_sub(i as u64);
            if h >= self.base_hour && h - self.base_hour < HOURS_RING as u64 {
                out.push(self.buckets[(h - self.base_hour) as usize]);
            } else {
                out.push(HourBucket { ts_hour: h, volume_e6: 0, fee_e6: 0, swaps: 0 });
            }
            i = i + 1;
        }
        assert(out@ =~= Seq::new(want as nat, |i: int| series_at(self.base_hour as int, self.buckets@, hour_now as int, i)));
        out
    }
}

/// Fees of a day annualised against `tvl`, in basis points, capped at `u32::MAX`.
pub open spec fn apy_bp_spec(fee_24h: int, tvl: int) -> int {
    if tvl == 0 {
        0
    } else {
        let a = sat_u128(sat_u128(fee_24h * 365) * 10_000) / tvl;
        if a > u32::MAX { u32::MAX as int } else { a }
    }
}

/// Volume, fees and swaps of the last day and week, the pool's TVL and the
/// annualised fee yield, as of `now_sec`.
pub fn get_stats_snapshot(stats: &RollingStats, now_sec: u64, pool: &Pool) -> (r: StatsSnapshot)
    ensures
        ({
            let h = now_sec / SECS_PER_HOUR;
            let d = window_sum(stats.buckets@, sat_sub(h as int, 23), h as int);
            let wk = window_sum(stats.buckets@, sat_sub(h as int, 167), h as int);
            let tvl = sat_u128(pool.reserve_usdc + pool.reserve_usdt);
            &&& r.now_sec == now_sec
            &&& r.tvl_e6 == tvl
            &&& r.vol_24h_e6 == sat_u128(d.0)
            &&& r.fee_24h_e6 == sat_u128(d.1)
            &&& r.swaps_24h == sat_u32(d.2)
            &&& r.vol_7d_e6 == sat_u128(wk.0)
            &&& r.fee_7d_e6 == sat_u128(wk.1)
            &&& r.apy_24h_bp == apy_bp_spec(sat_u128(d.1), tvl)
        }),
{
    let (vol_24, fee_24, swaps_24) = stats.sum_last_hours(now_sec, 24);
    let (vol_7d, fee_7d, _swaps_7d) = stats.sum_last_hours(now_sec, 168);
    let tvl = pool.get_tvl_e6();
    let apy_bp: u32 = if tvl == 0 {
        0
    } else {
        let a = mul_sat(mul_sat(fee_24, 365), 10_000) / tvl;
        if a > u32::MAX as u128 { u32::MAX } else { a as u32 }
    };
    proof {
        let h = now_sec / SECS_PER_HOUR;
        lemma_window_sum_nonneg(stats.buckets@, sat_sub(h as int, 23), h as int);
        lemma_window_sum_nonneg(stats.buckets@, sat_sub(h as int, 167), h as int);
    }
    StatsSnapshot {
        now_sec,
        tvl_e6: tvl,
        vol_24h_e6: vol_24,
        vol_7d_e6: vol_7d,
        fee_24h_e6: fee_24,
        fee_7d_e6: fee_7d,
        swaps_24h: swaps_24,
        apy_24h_bp: apy_bp,
    }
}

} // verus!
