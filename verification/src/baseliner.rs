use vstd::prelude::*;
use std::collections::HashMap;
use crate::pinger::PingReply;
use crate::utils::{div_trunc, lemma_div_trunc_exact, lemma_div_trunc_ordered};

verus! {

broadcast use vstd::std_specs::hash::group_hash_axioms;

/// One-way delays are held in fixed point: stored value = milliseconds times
/// this scale, so the slow EWMA keeps sub-millisecond resolution.
pub const OWD_SCALE: i64 = 65536;

/// EWMA retention factors are fractions of this scale.
pub const FACTOR_SCALE: i64 = 65536;

/// Largest delay magnitude a sample may carry: one day in milliseconds
/// (ICMP timestamps are milliseconds since midnight, so differences of
/// midnight-relative values stay within a day).
pub const DELAY_MS_MAX: i64 = 86_400_000;

/// Largest magnitude of a stored (scaled) delay value.
pub const OWD_LIMIT: i64 = 86_400_000 * 65536;

/// A gap of more than this between samples resets both EWMAs.
pub const STALE_GAP_MS: u64 = 30_000;

/// A sample this much (ms) above the baseline marks the reflector bad and
/// asks for reselection.
pub const RESELECT_THRESHOLD_MS: i64 = 5000;

/// Per-reflector dual-EWMA record: scaled one-way delays plus the time the
/// most recent sample was accepted.
#[derive(Clone, Copy, Debug, PartialEq, Eq, Structural)]
pub struct ReflectorStats {
    pub down_ewma: i64,
    pub up_ewma: i64,
    pub last_receive_time_ms: u64,
}

impl ReflectorStats {
    pub open spec fn wf(self) -> bool {
        &&& -OWD_LIMIT <= self.down_ewma <= OWD_LIMIT
        &&& -OWD_LIMIT <= self.up_ewma <= OWD_LIMIT
    }
}

/// The shared per-reflector delay state, keyed by the packed IP address.
pub type OwdMap = HashMap<u128, ReflectorStats>;

/// Baseline entries never exceed the recent entries, per direction: the
/// baseliner clamps the baseline down whenever the inequality would break.
pub open spec fn owd_ordered(b: Map<u128, ReflectorStats>, r: Map<u128, ReflectorStats>) -> bool {
    forall|k: u128|
        b.contains_key(k) && r.contains_key(k) ==> {
            &&& (#[trigger] b[k]).down_ewma <= (#[trigger] r[k]).down_ewma
            &&& b[k].up_ewma <= r[k].up_ewma
        }
}

/// Every record in the map is within the fixed-point delay bounds.
pub open spec fn owd_bounded(m: Map<u128, ReflectorStats>) -> bool {
    forall|k: u128| m.contains_key(k) ==> (#[trigger] m[k]).wf()
}

/// The exponentially weighted moving average in fixed point:
/// `(e * f + x * (FACTOR_SCALE - f)) / FACTOR_SCALE`, the machine's
/// truncated division.
pub open spec fn spec_ewma(e: int, x: int, f: int) -> int {
    div_trunc(e * f + x * (FACTOR_SCALE - f), FACTOR_SCALE as int)
}

proof fn lemma_ewma_num_bounds(e: int, x: int, f: int)
    by (nonlinear_arith)
    requires
        0 <= f <= FACTOR_SCALE,
    ensures
        (if e <= x {
            e
        } else {
            x
        }) * FACTOR_SCALE <= e * f + x * (FACTOR_SCALE - f),
        e * f + x * (FACTOR_SCALE - f) <= (if e <= x {
            x
        } else {
            e
        }) * FACTOR_SCALE,
{
}

/// The EWMA of `e` and `x` lies between them; when they are equal it is
/// exactly that value (so a repeated identical sample is a fixed point).
pub proof fn lemma_ewma_between(e: int, x: int, f: int)
    requires
        0 <= f <= FACTOR_SCALE,
    ensures
        e <= x ==> e <= spec_ewma(e, x, f) <= x,
        x <= e ==> x <= spec_ewma(e, x, f) <= e,
        e == x ==> spec_ewma(e, x, f) == e,
{
    let lo = if e <= x { e } else { x };
    let hi = if e <= x { x } else { e };
    let num = e * f + x * (FACTOR_SCALE - f);
    lemma_ewma_num_bounds(e, x, f);
    lemma_div_trunc_exact(lo, FACTOR_SCALE as int);
    lemma_div_trunc_exact(hi, FACTOR_SCALE as int);
    lemma_div_trunc_ordered(lo * FACTOR_SCALE, num, FACTOR_SCALE as int);
    lemma_div_trunc_ordered(num, hi * FACTOR_SCALE, FACTOR_SCALE as int);
}

/// One fixed-point EWMA step.
pub fn ewma_update(e: i64, x: i64, f: i64) -> (r: i64)
    requires
        0 <= f <= FACTOR_SCALE,
        -OWD_LIMIT <= e <= OWD_LIMIT,
        -OWD_LIMIT <= x <= OWD_LIMIT,
    ensures
        r == spec_ewma(e as int, x as int, f as int),
        -OWD_LIMIT <= r <= OWD_LIMIT,
        e == x ==> r == e,
{
    proof {
        lemma_ewma_between(e as int, x as int, f as int);
        assert((e as int) * (f as int) <= OWD_LIMIT * FACTOR_SCALE && (e as int) * (f as int)
            >= -OWD_LIMIT * FACTOR_SCALE) by (nonlinear_arith)
            requires
                0 <= f <= FACTOR_SCALE,
                -OWD_LIMIT <= e <= OWD_LIMIT,
        ;
        assert((x as int) * ((FACTOR_SCALE - f) as int) <= OWD_LIMIT * FACTOR_SCALE && (x as int)
            * ((FACTOR_SCALE - f) as int) >= -OWD_LIMIT * FACTOR_SCALE) by (nonlinear_arith)
            requires
                0 <= f <= FACTOR_SCALE,
                -OWD_LIMIT <= x <= OWD_LIMIT,
        ;
    }
    let num: i128 = (e as i128) * (f as i128) + (x as i128) * ((FACTOR_SCALE - f) as i128);
    let q: i128 = num / (FACTOR_SCALE as i128);
    q as i64
}

/// The record a first (or reset) sample creates: both directions start at the
/// sample's own delays.
pub open spec fn init_stats(reply: PingReply) -> ReflectorStats {
    ReflectorStats {
        down_ewma: (reply.down_time * OWD_SCALE) as i64,
        up_ewma: (reply.up_time * OWD_SCALE) as i64,
        last_receive_time_ms: reply.last_receive_time_ms,
    }
}

/// The probe stream was interrupted: the sample arrives more than
/// `STALE_GAP_MS` after the last one accepted in either map.
pub open spec fn needs_reset(b0: ReflectorStats, r0: ReflectorStats, reply: PingReply) -> bool {
    ||| reply.last_receive_time_ms > b0.last_receive_time_ms + STALE_GAP_MS
    ||| reply.last_receive_time_ms > r0.last_receive_time_ms + STALE_GAP_MS
}

/// The sample is more than `RESELECT_THRESHOLD_MS` above the baseline in
/// either direction (strictly: a delay exactly at the threshold is normal).
pub open spec fn is_anomaly(b: ReflectorStats, reply: PingReply) -> bool {
    ||| reply.up_time * OWD_SCALE > b.up_ewma + RESELECT_THRESHOLD_MS * OWD_SCALE
    ||| reply.down_time * OWD_SCALE > b.down_ewma + RESELECT_THRESHOLD_MS * OWD_SCALE
}

/// The whole per-sample step on one reflector's pair of records: staleness
/// reset, anomaly marking, or the dual EWMA update with the baseline clamped
/// to the recent value. Returns (new baseline, new recent, reselect trigger).
pub open spec fn sample_transition(
    bl: Baseliner,
    b0: ReflectorStats,
    r0: ReflectorStats,
    reply: PingReply,
) -> (ReflectorStats, ReflectorStats, bool) {
    let b1 = if needs_reset(b0, r0, reply) {
        init_stats(reply)
    } else {
        b0
    };
    let r1 = if needs_reset(b0, r0, reply) {
        init_stats(reply)
    } else {
        r0
    };
    if is_anomaly(b1, reply) {
        (
            ReflectorStats { last_receive_time_ms: bl.start_time_ms, ..b1 },
            ReflectorStats { last_receive_time_ms: bl.start_time_ms, ..r1 },
            true,
        )
    } else {
        let x_down = reply.down_time * OWD_SCALE;
        let x_up = reply.up_time * OWD_SCALE;
        let bd = spec_ewma(b1.down_ewma as int, x_down, bl.slow_factor as int);
        let bu = spec_ewma(b1.up_ewma as int, x_up, bl.slow_factor as int);
        let rd = spec_ewma(r1.down_ewma as int, x_down, bl.fast_factor as int);
        let ru = spec_ewma(r1.up_ewma as int, x_up, bl.fast_factor as int);
        (
            ReflectorStats {
                down_ewma: (if bd <= rd {
                    bd
                } else {
                    rd
                }) as i64,
                up_ewma: (if bu <= ru {
                    bu
                } else {
                    ru
                }) as i64,
                last_receive_time_ms: reply.last_receive_time_ms,
            },
            ReflectorStats {
                down_ewma: rd as i64,
                up_ewma: ru as i64,
                last_receive_time_ms: reply.last_receive_time_ms,
            },
            false,
        )
    }
}

/// Repeated identical samples are a fixed point of the baseliner: a sample
/// arriving on records that already sit at its own values (as after a first,
/// or any run of identical, samples at the same timestamp) leaves both
/// records exactly there and never asks for reselection. In particular two
/// consecutive identical replies keep the EWMAs at the first sample's
/// values.
pub proof fn lemma_repeated_sample_fixed_point(bl: Baseliner, reply: PingReply)
    requires
        bl.wf(),
        reply.wf(),
    ensures
        sample_transition(bl, init_stats(reply), init_stats(reply), reply) == (
            init_stats(reply),
            init_stats(reply),
            false,
        ),
{
    let s = init_stats(reply);
    assert(!needs_reset(s, s, reply));
    assert(!is_anomaly(s, reply));
    lemma_ewma_between(s.down_ewma as int, reply.down_time * OWD_SCALE, bl.slow_factor as int);
    lemma_ewma_between(s.up_ewma as int, reply.up_time * OWD_SCALE, bl.slow_factor as int);
    lemma_ewma_between(s.down_ewma as int, reply.down_time * OWD_SCALE, bl.fast_factor as int);
    lemma_ewma_between(s.up_ewma as int, reply.up_time * OWD_SCALE, bl.fast_factor as int);
}

/// The EWMA filter: per-sample retention factors (fixed point over
/// `FACTOR_SCALE`) and the process start time used as the stale-mark
/// sentinel.
pub struct Baseliner {
    pub slow_factor: i64,
    pub fast_factor: i64,
    pub start_time_ms: u64,
}

impl Baseliner {
    pub open spec fn wf(self) -> bool {
        &&& 0 <= self.slow_factor <= FACTOR_SCALE
        &&& 0 <= self.fast_factor <= FACTOR_SCALE
    }

    /// Feed one decoded reply into the two shared maps. Returns true exactly
    /// when the sample is anomalous (more than `RESELECT_THRESHOLD_MS` above
    /// the baseline), in which case both records are stale-marked with the
    /// process start time and the caller should fire the reselection trigger.
    pub fn process_sample(
        &self,
        owd_baseline: &mut OwdMap,
        owd_recent: &mut OwdMap,
        reply: &PingReply,
    ) -> (trigger: bool)
        requires
            self.wf(),
            reply.wf(),
            owd_bounded(old(owd_baseline)@),
            owd_bounded(old(owd_recent)@),
            old(owd_baseline)@.contains_key(reply.reflector) == old(owd_recent)@.contains_key(
                reply.reflector,
            ),
        ensures
            ({
                let b0 = if old(owd_baseline)@.contains_key(reply.reflector) {
                    old(owd_baseline)@[reply.reflector]
                } else {
                    init_stats(*reply)
                };
                let r0 = if old(owd_recent)@.contains_key(reply.reflector) {
                    old(owd_recent)@[reply.reflector]
                } else {
                    init_stats(*reply)
                };
                let t = sample_transition(*self, b0, r0, *reply);
                &&& final(owd_baseline)@ == old(owd_baseline)@.insert(reply.reflector, t.0)
                &&& final(owd_recent)@ == old(owd_recent)@.insert(reply.reflector, t.1)
                &&& trigger == t.2
            }),
            owd_bounded(final(owd_baseline)@),
            owd_bounded(final(owd_recent)@),
            owd_ordered(old(owd_baseline)@, old(owd_recent)@) ==> owd_ordered(
                final(owd_baseline)@,
                final(owd_recent)@,
            ),
    {
        let k = reply.reflector;
        let init = ReflectorStats {
            down_ewma: reply.down_time * OWD_SCALE,
            up_ewma: reply.up_time * OWD_SCALE,
            last_receive_time_ms: reply.last_receive_time_ms,
        };
        let b_cur: ReflectorStats = match owd_baseline.get(&k) {
            Some(v) => *v,
            None => init,
        };
        let r_cur: ReflectorStats = match owd_recent.get(&k) {
            Some(v) => *v,
            None => init,
        };
        let reset = (reply.last_receive_time_ms as u128) > (b_cur.last_receive_time_ms as u128)
            + (STALE_GAP_MS as u128) || (reply.last_receive_time_ms as u128)
            > (r_cur.last_receive_time_ms as u128) + (STALE_GAP_MS as u128);
        let b1 = if reset {
            init
        } else {
            b_cur
        };
        let r1 = if reset {
            init
        } else {
            r_cur
        };
        let anomaly = reply.up_time * OWD_SCALE > b1.up_ewma + RESELECT_THRESHOLD_MS * OWD_SCALE
            || reply.down_time * OWD_SCALE > b1.down_ewma + RESELECT_THRESHOLD_MS * OWD_SCALE;
        if anomaly {
            let nb = ReflectorStats { last_receive_time_ms: self.start_time_ms, ..b1 };
            let nr = ReflectorStats { last_receive_time_ms: self.start_time_ms, ..r1 };
            owd_baseline.insert(k, nb);
            owd_recent.insert(k, nr);
            true
        } else {
            let bd = ewma_update(b1.down_ewma, init.down_ewma, self.slow_factor);
            let bu = ewma_update(b1.up_ewma, init.up_ewma, self.slow_factor);
            let rd = ewma_update(r1.down_ewma, init.down_ewma, self.fast_factor);
            let ru = ewma_update(r1.up_ewma, init.up_ewma, self.fast_factor);
            let nb = ReflectorStats {
                down_ewma: if bd <= rd {
                    bd
                } else {
                    rd
                },
                up_ewma: if bu <= ru {
                    bu
                } else {
                    ru
                },
                last_receive_time_ms: reply.last_receive_time_ms,
            };
            let nr = ReflectorStats {
                down_ewma: rd,
                up_ewma: ru,
                last_receive_time_ms: reply.last_receive_time_ms,
            };
            owd_baseline.insert(k, nb);
            owd_recent.insert(k, nr);
            false
        }
    }
}

} // verus!
