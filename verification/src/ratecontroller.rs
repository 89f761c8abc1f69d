use vstd::prelude::*;
use crate::baseliner::{owd_bounded, OwdMap, ReflectorStats, OWD_SCALE};
use crate::config::Config;
use crate::netlink::Qdisc;
use crate::rng::random_u64;
use crate::utils::lemma_swap_multiset;
use crate::utils::Utils;

verus! {

broadcast use {vstd::std_specs::hash::group_hash_axioms, vstd::seq_lib::group_to_multiset_ensures};

/// Rates above this (kbit/s) are clamped: far beyond any link this shaper
/// could sit on, and low enough that the rate arithmetic cannot overflow.
pub const MAX_RATE_KBITS: u64 = 0x100_0000_0000;

/// The two shaped directions.
#[derive(Clone, Copy, Debug, PartialEq, Eq, Structural)]
pub enum Direction {
    Down,
    Up,
}

/// Per-direction controller state.
#[derive(Clone, Debug)]
pub struct State {
    pub current_bytes: u64,
    pub previous_bytes: u64,
    pub prev_t_ms: u64,
    pub current_rate: u64,
    pub next_rate: u64,
    pub deltas: Vec<i64>,
    pub delta_stat: i64,
    pub utilisation: u64,
    pub load_milli: u64,
    pub safe_rates: Vec<u64>,
    pub nrate: usize,
    pub qdisc: Qdisc,
}

impl State {
    /// The safe-rate ring is full-sized with its cursor inside it, and the
    /// shaper rate sits between 1 kbit/s and the clamp.
    pub open spec fn wf(self, speed_hist_size: u32) -> bool {
        &&& self.safe_rates@.len() == speed_hist_size
        &&& (speed_hist_size > 0 ==> self.nrate < speed_hist_size)
        &&& (speed_hist_size == 0 ==> self.nrate == 0)
        &&& 1 <= self.current_rate <= MAX_RATE_KBITS
    }
}

/// A delta vector sorted lowest to highest.
pub open spec fn sorted_i64(s: Seq<i64>) -> bool {
    forall|a: int, b: int| 0 <= a < b < s.len() ==> s[a] <= s[b]
}

/// Sort delay deltas ascending (insertion sort), keeping the multiset.
pub fn sort_i64(v: &mut Vec<i64>)
    ensures
        sorted_i64(final(v)@),
        final(v)@.to_multiset() == old(v)@.to_multiset(),
        final(v)@.len() == old(v)@.len(),
{
    let ghost orig = v@;
    let mut i: usize = 1;
    while i < v.len()
        invariant
            1 <= i,
            v@.len() == orig.len(),
            i <= v@.len() || v@.len() <= 1,
            v@.to_multiset() == orig.to_multiset(),
            forall|a: int, b: int| 0 <= a < b < i && b < v@.len() ==> v@[a] <= v@[b],
        decreases v@.len() - i,
    {
        let mut j: usize = i;
        while j > 0 && v[j - 1] > v[j]
            invariant
                0 <= j <= i < v@.len(),
                v@.len() == orig.len(),
                v@.to_multiset() == orig.to_multiset(),
                forall|a: int, b: int| 0 <= a < b <= i && b != j ==> v@[a] <= v@[b],
            decreases j,
        {
            let ghost before = v@;
            let hi = v[j - 1];
            let lo = v[j];
            v[j - 1] = lo;
            v[j] = hi;
            proof {
                assert(v@ =~= before.update(j - 1, before[j as int]).update(
                    j as int,
                    before[j - 1],
                ));
                lemma_swap_multiset(before, j - 1, j as int);
            }
            j = j - 1;
        }
        i = i + 1;
    }
}

/// Whether a record is fresh enough for this tick: received within two probe
/// intervals of now.
pub open spec fn fresh_at(s: ReflectorStats, now_ms: u64, tick_interval_ms: u64) -> bool {
    now_ms - s.last_receive_time_ms < 2 * tick_interval_ms
}

/// A reflector contributes deltas exactly when it has entries in both maps
/// and its recent record is fresh.
pub open spec fn included(
    k: u128,
    b: Map<u128, ReflectorStats>,
    r: Map<u128, ReflectorStats>,
    now_ms: u64,
    tick_interval_ms: u64,
) -> bool {
    &&& b.contains_key(k)
    &&& r.contains_key(k)
    &&& fresh_at(r[k], now_ms, tick_interval_ms)
}

/// The downstream deltas (recent minus baseline) of the contributing
/// reflectors, in peer-list order.
pub open spec fn down_deltas(
    peers: Seq<u128>,
    b: Map<u128, ReflectorStats>,
    r: Map<u128, ReflectorStats>,
    now_ms: u64,
    tick_interval_ms: u64,
) -> Seq<i64>
    decreases peers.len(),
{
    if peers.len() == 0 {
        Seq::empty()
    } else {
        let rest = down_deltas(peers.drop_last(), b, r, now_ms, tick_interval_ms);
        let k = peers.last();
        if included(k, b, r, now_ms, tick_interval_ms) {
            rest.push((r[k].down_ewma - b[k].down_ewma) as i64)
        } else {
            rest
        }
    }
}

/// The upstream deltas of the contributing reflectors, in peer-list order.
pub open spec fn up_deltas(
    peers: Seq<u128>,
    b: Map<u128, ReflectorStats>,
    r: Map<u128, ReflectorStats>,
    now_ms: u64,
    tick_interval_ms: u64,
) -> Seq<i64>
    decreases peers.len(),
{
    if peers.len() == 0 {
        Seq::empty()
    } else {
        let rest = up_deltas(peers.drop_last(), b, r, now_ms, tick_interval_ms);
        let k = peers.last();
        if included(k, b, r, now_ms, tick_interval_ms) {
            rest.push((r[k].up_ewma - b[k].up_ewma) as i64)
        } else {
            rest
        }
    }
}

/// The robust statistic over a sorted delta vector: the third-lowest value
/// when positive, else the lowest.
pub open spec fn spec_delta_stat(d: Seq<i64>) -> i64
    recommends
        d.len() >= 3,
{
    if d[2] > 0 {
        d[2]
    } else {
        d[0]
    }
}

/// Throughput over the sampling window, kbit/s: `8 * bytes / elapsed_ms`
/// (zero when the counter went backwards).
pub open spec fn spec_utilisation(cur: u64, prev: u64, elapsed_ms: int) -> int
    recommends
        elapsed_ms > 0,
{
    if cur >= prev {
        8 * (cur - prev) / elapsed_ms
    } else {
        0
    }
}

/// Load as thousandths of the current shaper rate.
pub open spec fn spec_load_milli(util: int, current_rate: u64) -> int
    recommends
        current_rate >= 1,
{
    1000 * util / (current_rate as int)
}

/// The largest entry of the safe-rate ring; zero when it is empty.
pub open spec fn spec_max_u64(s: Seq<u64>) -> u64
    decreases s.len(),
{
    if s.len() == 0 {
        0u64
    } else {
        let m = spec_max_u64(s.drop_last());
        if s.last() > m {
            s.last()
        } else {
            m
        }
    }
}

/// A nonnegative quantity clipped into u64.
pub open spec fn sat64(x: int) -> u64 {
    if x > u64::MAX {
        u64::MAX as u64
    } else if x < 0 {
        0u64
    } else {
        x as u64
    }
}

/// A rate clipped to the shaper's representable range.
pub open spec fn sat_rate(x: int) -> u64 {
    if x > MAX_RATE_KBITS {
        MAX_RATE_KBITS
    } else if x < 0 {
        0u64
    } else {
        x as u64
    }
}

/// Raise toward the best historically-safe rate, plus a floor-driven nudge:
/// `current * (1 + 0.1 * max(0, 1 - current/max_safe)) + 0.03 * base`, in
/// thousandths.
pub open spec fn spec_probe_up(current: u64, max_safe: u64, base: u64) -> int {
    let headroom = if current < max_safe {
        1000 - 1000 * current / (max_safe as int)
    } else {
        0
    };
    current + current * headroom / 10000 + 3 * base / 100
}

/// The back-off proposal: nine tenths of the measured throughput,
/// `0.9 * current * load`.
pub open spec fn spec_backoff(current: u64, load_milli: int) -> int {
    9 * current * load_milli / 10000
}

/// Floor at the configured minimum, cap at the representable maximum.
pub open spec fn clamp_rate(x: int, min_rate: u64) -> u64 {
    if x < min_rate {
        min_rate
    } else if x > MAX_RATE_KBITS {
        MAX_RATE_KBITS
    } else {
        x as u64
    }
}

/// What one rate decision does to a direction's state: `pre` is the state
/// after the tick's deltas were written, `post` the state after the
/// decision. Fewer than three fresh deltas - none at all included - floor
/// the proposal to the configured minimum; a positive robust delta below the
/// threshold with high load probes up; a delta at or above the threshold
/// backs off. `pick` chooses among the safe rates when backing off.
pub open spec fn rate_decision_ok(
    pre: State,
    post: State,
    base: u64,
    delay_ms: u64,
    min_rate: u64,
    high_load_milli: u64,
    speed_hist_size: u32,
    now_ms: u64,
    pick: int,
) -> bool {
    let d = pre.deltas@;
    let c = pre.current_rate;
    let elapsed = if now_ms > pre.prev_t_ms {
        now_ms - pre.prev_t_ms
    } else {
        1int
    };
    let util = spec_utilisation(pre.current_bytes, pre.previous_bytes, elapsed);
    let load = spec_load_milli(util, c);
    let threshold = delay_ms * OWD_SCALE;
    &&& post.deltas == pre.deltas
    &&& post.qdisc == pre.qdisc
    &&& post.current_rate == pre.current_rate
    &&& post.current_bytes == pre.current_bytes
    &&& post.previous_bytes == pre.current_bytes
    &&& post.prev_t_ms == now_ms
    &&& if d.len() < 3 {
        &&& post.next_rate == min_rate
        &&& post.safe_rates == pre.safe_rates
        &&& post.nrate == pre.nrate
        &&& post.delta_stat == pre.delta_stat
        &&& post.utilisation == pre.utilisation
        &&& post.load_milli == pre.load_milli
    } else {
        let ds = spec_delta_stat(d);
        &&& post.delta_stat == ds
        &&& if ds <= 0 {
            &&& post.next_rate == clamp_rate(c as int, min_rate)
            &&& post.safe_rates == pre.safe_rates
            &&& post.nrate == pre.nrate
            &&& post.utilisation == pre.utilisation
            &&& post.load_milli == pre.load_milli
        } else {
            let probing = ds < threshold && load > high_load_milli;
            let safe1 = if probing && speed_hist_size > 0 {
                pre.safe_rates@.update(pre.nrate as int, sat_rate(c * load / 1000))
            } else {
                pre.safe_rates@
            };
            let nrate1 = if probing && speed_hist_size > 0 {
                ((pre.nrate + 1) % (speed_hist_size as int)) as usize
            } else {
                pre.nrate
            };
            &&& post.utilisation == sat64(util)
            &&& post.load_milli == sat64(load)
            &&& post.safe_rates@ == safe1
            &&& post.nrate == nrate1
            &&& post.next_rate == if ds >= threshold {
                if safe1.len() > 0 {
                    let chosen = safe1[pick % (safe1.len() as int)] as int;
                    let backoff = spec_backoff(c, load);
                    clamp_rate(
                        if backoff <= chosen {
                            backoff
                        } else {
                            chosen
                        },
                        min_rate,
                    )
                } else {
                    clamp_rate(spec_backoff(c, load), min_rate)
                }
            } else if probing {
                clamp_rate(spec_probe_up(c, spec_max_u64(safe1), base), min_rate)
            } else {
                clamp_rate(c as int, min_rate)
            }
        }
    }
}

/// What one controller tick decides: which qdiscs to re-program and
/// whether to ask for reflector reselection.
#[derive(Clone, Copy, Debug)]
pub struct TickDecision {
    pub set_download: Option<u64>,
    pub set_upload: Option<u64>,
    pub reselect: bool,
}

/// The largest entry of the ring, for the probe-up rule.
fn max_rate(v: &Vec<u64>) -> (r: u64)
    ensures
        r == spec_max_u64(v@),
{
    let mut m: u64 = 0;
    let mut i: usize = 0;
    proof {
        assert(v@.subrange(0, 0) =~= Seq::<u64>::empty());
    }
    while i < v.len()
        invariant
            i <= v@.len(),
            m == spec_max_u64(v@.subrange(0, i as int)),
        decreases v@.len() - i,
    {
        let x = v[i];
        proof {
            assert(v@.subrange(0, i + 1).drop_last() =~= v@.subrange(0, i as int));
            assert(v@.subrange(0, i + 1).last() == v@[i as int]);
        }
        if x > m {
            m = x;
        }
        i = i + 1;
    }
    proof {
        assert(v@.subrange(0, v@.len() as int) =~= v@);
    }
    m
}

/// One random initial safe rate: between three quarters of and just under
/// the base rate, driven by the random word.
fn initial_speed(base_speed: u64, w: u64) -> (r: u64)
    requires
        1 <= base_speed <= MAX_RATE_KBITS,
    ensures
        r == base_speed * ((750 + (w as int) % 200)) / 1000,
        base_speed * 750 / 1000 <= r <= base_speed * 949 / 1000,
        r <= base_speed,
{
    let m: u64 = 750 + w % 200;
    proof {
        assert(base_speed * 750 <= base_speed * m <= base_speed * 949 <= base_speed * 1000)
            by (nonlinear_arith)
            requires
                750 <= m <= 949,
                0 <= base_speed,
        ;
        assert(base_speed * 1000 / 1000 == base_speed) by (nonlinear_arith);
        vstd::arithmetic::div_mod::lemma_div_is_ordered(
            (base_speed * m) as int,
            (base_speed * 1000) as int,
            1000,
        );
        vstd::arithmetic::div_mod::lemma_div_is_ordered(
            (base_speed * m) as int,
            (base_speed * 949) as int,
            1000,
        );
        vstd::arithmetic::div_mod::lemma_div_is_ordered(
            (base_speed * 750) as int,
            (base_speed * m) as int,
            1000,
        );
    }
    let v: u128 = (base_speed as u128) * (m as u128) / 1000;
    v as u64
}

/// The ring of historically safe rates a direction starts with: random
/// samples around the base rate.
pub fn generate_initial_speeds(base_speed: u64, size: u32) -> (r: Vec<u64>)
    requires
        1 <= base_speed <= MAX_RATE_KBITS,
    ensures
        r@.len() == size,
        forall|i: int|
            0 <= i < r@.len() ==> base_speed * 750 / 1000 <= #[trigger] r@[i] <= base_speed * 949
                / 1000,
{
    let mut rates: Vec<u64> = Vec::new();
    let mut i: u32 = 0;
    while i < size
        invariant
            i <= size,
            1 <= base_speed <= MAX_RATE_KBITS,
            rates@.len() == i,
            forall|j: int|
                0 <= j < rates@.len() ==> base_speed * 750 / 1000 <= #[trigger] rates@[j]
                    <= base_speed * 949 / 1000,
        decreases size - i,
    {
        let w = random_u64();
        rates.push(initial_speed(base_speed, w));
        i = i + 1;
    }
    rates
}

/// The rate a direction starts at: six tenths of the base rate, floored at
/// 1 kbit/s, so the baseliner first sees a lightly loaded link.
pub fn initial_rate(base_kbits: u64) -> (r: u64)
    requires
        1 <= base_kbits <= MAX_RATE_KBITS,
    ensures
        r == if 3 * base_kbits / 5 >= 1 {
            3 * base_kbits / 5
        } else {
            1int
        },
        1 <= r <= MAX_RATE_KBITS,
{
    let v: u64 = 3 * base_kbits / 5;
    if v >= 1 {
        v
    } else {
        1
    }
}

/// The decision loop's owner: configuration and the two directions' states.
pub struct Ratecontroller {
    pub config: Config,
    pub state_dl: State,
    pub state_ul: State,
}

impl Ratecontroller {
    /// Assemble the controller: each direction starts at its initial rate
    /// with a freshly seeded safe-rate ring and the byte counters read at
    /// `now_ms`.
    pub fn new(
        config: Config,
        dl_qdisc: Qdisc,
        ul_qdisc: Qdisc,
        cur_rx_bytes: u64,
        cur_tx_bytes: u64,
        now_ms: u64,
    ) -> (r: Ratecontroller)
        requires
            config.wf(),
        ensures
            r.config == config,
            r.state_dl.wf(config.speed_hist_size),
            r.state_ul.wf(config.speed_hist_size),
            r.state_dl.qdisc == dl_qdisc,
            r.state_ul.qdisc == ul_qdisc,
            r.state_dl.previous_bytes == cur_rx_bytes,
            r.state_ul.previous_bytes == cur_tx_bytes,
            r.state_dl.prev_t_ms == now_ms,
            r.state_ul.prev_t_ms == now_ms,
            r.state_dl.current_rate == if 3 * config.download_base_kbits / 5 >= 1 {
                3 * config.download_base_kbits / 5
            } else {
                1int
            },
            r.state_ul.current_rate == if 3 * config.upload_base_kbits / 5 >= 1 {
                3 * config.upload_base_kbits / 5
            } else {
                1int
            },
            r.state_dl.deltas@.len() == 0,
            r.state_ul.deltas@.len() == 0,
            r.state_dl.nrate == 0,
            r.state_ul.nrate == 0,
            r.state_dl.next_rate == r.state_dl.current_rate,
            r.state_ul.next_rate == r.state_ul.current_rate,
            r.state_dl.current_bytes == 0,
            r.state_ul.current_bytes == 0,
            forall|i: int|
                0 <= i < r.state_dl.safe_rates@.len() ==> config.download_base_kbits * 750 / 1000
                    <= #[trigger] r.state_dl.safe_rates@[i] <= config.download_base_kbits * 949
                    / 1000,
            forall|i: int|
                0 <= i < r.state_ul.safe_rates@.len() ==> config.upload_base_kbits * 750 / 1000
                    <= #[trigger] r.state_ul.safe_rates@[i] <= config.upload_base_kbits * 949
                    / 1000,
    {
        let dl_rate = initial_rate(config.download_base_kbits);
        let ul_rate = initial_rate(config.upload_base_kbits);
        let dl_safe = generate_initial_speeds(config.download_base_kbits, config.speed_hist_size);
        let ul_safe = generate_initial_speeds(config.upload_base_kbits, config.speed_hist_size);
        let state_dl = State {
            current_bytes: 0,
            previous_bytes: cur_rx_bytes,
            prev_t_ms: now_ms,
            current_rate: dl_rate,
            next_rate: dl_rate,
            deltas: Vec::new(),
            delta_stat: 0,
            utilisation: 0,
            load_milli: 0,
            safe_rates: dl_safe,
            nrate: 0,
            qdisc: dl_qdisc,
        };
        let state_ul = State {
            current_bytes: 0,
            previous_bytes: cur_tx_bytes,
            prev_t_ms: now_ms,
            current_rate: ul_rate,
            next_rate: ul_rate,
            deltas: Vec::new(),
            delta_stat: 0,
            utilisation: 0,
            load_milli: 0,
            safe_rates: ul_safe,
            nrate: 0,
            qdisc: ul_qdisc,
        };
        Ratecontroller { config, state_dl, state_ul }
    }

    /// Collect this tick's delay deltas from every fresh reflector into both
    /// directions' vectors, sorted ascending. True when either direction has
    /// fewer than five: the caller should ask for reselection.
    pub fn update_deltas(
        &mut self,
        owd_baseline: &OwdMap,
        owd_recent: &OwdMap,
        reflectors: &Vec<u128>,
        now_ms: u64,
    ) -> (reselect: bool)
        requires
            owd_bounded(owd_baseline@),
            owd_bounded(owd_recent@),
        ensures
            ({
                let tick = old(self).config.tick_interval_ms;
                let dl = down_deltas(reflectors@, owd_baseline@, owd_recent@, now_ms, tick);
                let ul = up_deltas(reflectors@, owd_baseline@, owd_recent@, now_ms, tick);
                &&& final(self).state_dl.deltas@.to_multiset() == dl.to_multiset()
                &&& final(self).state_ul.deltas@.to_multiset() == ul.to_multiset()
                &&& sorted_i64(final(self).state_dl.deltas@)
                &&& sorted_i64(final(self).state_ul.deltas@)
                &&& final(self).state_dl.deltas@.len() == dl.len()
                &&& final(self).state_ul.deltas@.len() == ul.len()
                &&& reselect == (dl.len() < 5 || ul.len() < 5)
            }),
            final(self).config == old(self).config,
            final(self).state_dl == (State {
                deltas: final(self).state_dl.deltas,
                ..old(self).state_dl
            }),
            final(self).state_ul == (State {
                deltas: final(self).state_ul.deltas,
                ..old(self).state_ul
            }),
    {
        let tick = self.config.tick_interval_ms;
        self.state_dl.deltas.clear();
        self.state_ul.deltas.clear();
        let ghost b = owd_baseline@;
        let ghost r = owd_recent@;
        let mut i: usize = 0;
        proof {
            assert(reflectors@.subrange(0, 0) =~= Seq::<u128>::empty());
        }
        while i < reflectors.len()
            invariant
                i <= reflectors@.len(),
                owd_bounded(b),
                owd_bounded(r),
                b == owd_baseline@,
                r == owd_recent@,
                self.config == old(self).config,
                tick == self.config.tick_interval_ms,
                self.state_dl == (State { deltas: self.state_dl.deltas, ..old(self).state_dl }),
                self.state_ul == (State { deltas: self.state_ul.deltas, ..old(self).state_ul }),
                self.state_dl.deltas@ == down_deltas(
                    reflectors@.subrange(0, i as int),
                    b,
                    r,
                    now_ms,
                    tick,
                ),
                self.state_ul.deltas@ == up_deltas(
                    reflectors@.subrange(0, i as int),
                    b,
                    r,
                    now_ms,
                    tick,
                ),
            decreases reflectors@.len() - i,
        {
            let k = reflectors[i];
            let fresh_pair = match (owd_baseline.get(&k), owd_recent.get(&k)) {
                (Some(bs), Some(rs)) => {
                    if (now_ms as u128) < (rs.last_receive_time_ms as u128) + 2 * (tick as u128) {
                        let down = rs.down_ewma - bs.down_ewma;
                        let up = rs.up_ewma - bs.up_ewma;
                        self.state_dl.deltas.push(down);
                        self.state_ul.deltas.push(up);
                        true
                    } else {
                        false
                    }
                },
                _ => false,
            };
            proof {
                let pre = reflectors@.subrange(0, i as int);
                let cur = reflectors@.subrange(0, i + 1);
                assert(cur.drop_last() =~= pre);
                assert(cur.last() == reflectors@[i as int]);
                assert(fresh_pair == included(reflectors@[i as int], b, r, now_ms, tick));
            }
            i = i + 1;
        }
        proof {
            assert(reflectors@.subrange(0, reflectors@.len() as int) =~= reflectors@);
        }
        sort_i64(&mut self.state_dl.deltas);
        sort_i64(&mut self.state_ul.deltas);
        self.state_dl.deltas.len() < 5 || self.state_ul.deltas.len() < 5
    }

    /// Decide one direction's next shaper rate from this tick's sorted
    /// deltas, utilisation and the safe-rate history, exactly per
    /// `rate_decision_ok`. The random word picks the fallback safe rate when
    /// backing off.
    pub fn calculate_rate(&mut self, direction: Direction, now_ms: u64, rnd: u64)
        requires
            old(self).config.wf(),
            direction == Direction::Down ==> old(self).state_dl.wf(
                old(self).config.speed_hist_size,
            ),
            direction == Direction::Up ==> old(self).state_ul.wf(
                old(self).config.speed_hist_size,
            ),
        ensures
            final(self).config == old(self).config,
            direction == Direction::Down ==> {
                &&& final(self).state_ul == old(self).state_ul
                &&& rate_decision_ok(
                    old(self).state_dl,
                    final(self).state_dl,
                    old(self).config.download_base_kbits,
                    old(self).config.download_delay_ms,
                    old(self).config.download_min_kbits,
                    old(self).config.high_load_milli,
                    old(self).config.speed_hist_size,
                    now_ms,
                    rnd as int,
                )
            },
            direction == Direction::Up ==> {
                &&& final(self).state_dl == old(self).state_dl
                &&& rate_decision_ok(
                    old(self).state_ul,
                    final(self).state_ul,
                    old(self).config.upload_base_kbits,
                    old(self).config.upload_delay_ms,
                    old(self).config.upload_min_kbits,
                    old(self).config.high_load_milli,
                    old(self).config.speed_hist_size,
                    now_ms,
                    rnd as int,
                )
            },
            direction == Direction::Down ==> final(self).state_dl.wf(
                old(self).config.speed_hist_size,
            ) && old(self).config.download_min_kbits <= final(self).state_dl.next_rate
                <= MAX_RATE_KBITS,
            direction == Direction::Up ==> final(self).state_ul.wf(
                old(self).config.speed_hist_size,
            ) && old(self).config.upload_min_kbits <= final(self).state_ul.next_rate
                <= MAX_RATE_KBITS,
    {
        match direction {
            Direction::Down => {
                calculate_rate_state(
                    &mut self.state_dl,
                    self.config.download_base_kbits,
                    self.config.download_delay_ms,
                    self.config.download_min_kbits,
                    self.config.high_load_milli,
                    self.config.speed_hist_size,
                    now_ms,
                    rnd,
                );
            },
            Direction::Up => {
                calculate_rate_state(
                    &mut self.state_ul,
                    self.config.upload_base_kbits,
                    self.config.upload_delay_ms,
                    self.config.upload_min_kbits,
                    self.config.high_load_milli,
                    self.config.speed_hist_size,
                    now_ms,
                    rnd,
                );
            },
        }
    }

    /// One full control tick: collect deltas, decide both directions, commit
    /// the new rates, and say which qdiscs need re-programming.
    pub fn tick(
        &mut self,
        owd_baseline: &OwdMap,
        owd_recent: &OwdMap,
        reflectors: &Vec<u128>,
        down_bytes: u64,
        up_bytes: u64,
        now_ms: u64,
    ) -> (decision: TickDecision)
        requires
            old(self).config.wf(),
            old(self).state_dl.wf(old(self).config.speed_hist_size),
            old(self).state_ul.wf(old(self).config.speed_hist_size),
            owd_bounded(owd_baseline@),
            owd_bounded(owd_recent@),
        ensures
            final(self).config == old(self).config,
            final(self).state_dl.wf(old(self).config.speed_hist_size),
            final(self).state_ul.wf(old(self).config.speed_hist_size),
            // rate flooring: after every tick the committed rate is at least
            // the configured minimum, in both directions
            final(self).state_dl.current_rate >= old(self).config.download_min_kbits,
            final(self).state_ul.current_rate >= old(self).config.upload_min_kbits,
            final(self).state_dl.current_rate == final(self).state_dl.next_rate,
            final(self).state_ul.current_rate == final(self).state_ul.next_rate,
            ({
                let tick_ms = old(self).config.tick_interval_ms;
                let dl = down_deltas(reflectors@, owd_baseline@, owd_recent@, now_ms, tick_ms);
                let ul = up_deltas(reflectors@, owd_baseline@, owd_recent@, now_ms, tick_ms);
                &&& decision.reselect == (dl.len() < 5 || ul.len() < 5)
                &&& final(self).state_dl.deltas@.to_multiset() == dl.to_multiset()
                &&& final(self).state_ul.deltas@.to_multiset() == ul.to_multiset()
                &&& sorted_i64(final(self).state_dl.deltas@)
                &&& sorted_i64(final(self).state_ul.deltas@)
            }),
            ({
                let dl_pre = (State {
                    deltas: final(self).state_dl.deltas,
                    current_bytes: down_bytes,
                    ..old(self).state_dl
                });
                let dl_post = (State {
                    current_rate: old(self).state_dl.current_rate,
                    ..final(self).state_dl
                });
                exists|pick: int|
                    #![auto]
                    0 <= pick && rate_decision_ok(
                        dl_pre,
                        dl_post,
                        old(self).config.download_base_kbits,
                        old(self).config.download_delay_ms,
                        old(self).config.download_min_kbits,
                        old(self).config.high_load_milli,
                        old(self).config.speed_hist_size,
                        now_ms,
                        pick,
                    )
            }),
            ({
                let ul_pre = (State {
                    deltas: final(self).state_ul.deltas,
                    current_bytes: up_bytes,
                    ..old(self).state_ul
                });
                let ul_post = (State {
                    current_rate: old(self).state_ul.current_rate,
                    ..final(self).state_ul
                });
                exists|pick: int|
                    #![auto]
                    0 <= pick && rate_decision_ok(
                        ul_pre,
                        ul_post,
                        old(self).config.upload_base_kbits,
                        old(self).config.upload_delay_ms,
                        old(self).config.upload_min_kbits,
                        old(self).config.high_load_milli,
                        old(self).config.speed_hist_size,
                        now_ms,
                        pick,
                    )
            }),
            decision.set_download == if final(self).state_dl.next_rate
                != old(self).state_dl.current_rate {
                Some(final(self).state_dl.next_rate)
            } else {
                None::<u64>
            },
            decision.set_upload == if final(self).state_ul.next_rate
                != old(self).state_ul.current_rate {
                Some(final(self).state_ul.next_rate)
            } else {
                None::<u64>
            },
    {
        self.state_dl.current_bytes = down_bytes;
        self.state_ul.current_bytes = up_bytes;
        let reselect = self.update_deltas(owd_baseline, owd_recent, reflectors, now_ms);
        let rnd_dl = random_u64();
        let rnd_ul = random_u64();
        self.calculate_rate(Direction::Down, now_ms, rnd_dl);
        self.calculate_rate(Direction::Up, now_ms, rnd_ul);
        let set_download = if self.state_dl.next_rate != self.state_dl.current_rate {
            Some(self.state_dl.next_rate)
        } else {
            None
        };
        let set_upload = if self.state_ul.next_rate != self.state_ul.current_rate {
            Some(self.state_ul.next_rate)
        } else {
            None
        };
        self.state_dl.current_rate = self.state_dl.next_rate;
        self.state_ul.current_rate = self.state_ul.next_rate;
        TickDecision { set_download, set_upload, reselect }
    }
}

/// The per-direction decision body shared by both directions.
fn calculate_rate_state(
    state: &mut State,
    base_kbits: u64,
    delay_ms: u64,
    min_kbits: u64,
    high_load_milli: u64,
    speed_hist_size: u32,
    now_ms: u64,
    rnd: u64,
)
    requires
        1 <= min_kbits <= base_kbits <= MAX_RATE_KBITS,
        1 <= delay_ms <= 86_400_000,
        old(state).wf(speed_hist_size),
    ensures
        rate_decision_ok(
            *old(state),
            *final(state),
            base_kbits,
            delay_ms,
            min_kbits,
            high_load_milli,
            speed_hist_size,
            now_ms,
            rnd as int,
        ),
        final(state).wf(speed_hist_size),
        min_kbits <= final(state).next_rate <= MAX_RATE_KBITS,
{
    let elapsed: u64 = if now_ms > state.prev_t_ms {
        now_ms - state.prev_t_ms
    } else {
        1
    };
    if state.deltas.len() < 3 {
        state.next_rate = min_kbits;
    } else {
        let d2 = state.deltas[2];
        let d0 = state.deltas[0];
        state.delta_stat = Utils::a_else_b(d2, d0);
        if state.delta_stat > 0 {
            let diff: u64 = if state.current_bytes >= state.previous_bytes {
                state.current_bytes - state.previous_bytes
            } else {
                0
            };
            let util: u128 = 8 * (diff as u128) / (elapsed as u128);
            let load: u128 = 1000 * util / (state.current_rate as u128);
            proof {
                lemma_calc_bounds(
                    diff as int,
                    elapsed as int,
                    util as int,
                    load as int,
                    state.current_rate as int,
                );
            }
            state.utilisation = if util > (u64::MAX as u128) {
                u64::MAX
            } else {
                util as u64
            };
            state.load_milli = if load > (u64::MAX as u128) {
                u64::MAX
            } else {
                load as u64
            };
            let threshold: i64 = (delay_ms as i64) * OWD_SCALE;
            let probing = state.delta_stat < threshold && load > (high_load_milli as u128);
            if probing {
                if state.safe_rates.len() > 0 {
                    proof {
                        lemma_mul_le(
                            state.current_rate as int,
                            load as int,
                            MAX_RATE_KBITS as int,
                            0x1_0000_0000_0000_0000_0000,
                        );
                    }
                    let stored128: u128 = (state.current_rate as u128) * load / 1000;
                    let stored: u64 = if stored128 > (MAX_RATE_KBITS as u128) {
                        MAX_RATE_KBITS
                    } else {
                        stored128 as u64
                    };
                    let n = state.nrate;
                    state.safe_rates[n] = stored;
                    state.nrate = (n + 1) % (speed_hist_size as usize);
                }
                let max_safe = max_rate(&state.safe_rates);
                let c = state.current_rate;
                proof {
                    if c < max_safe {
                        vstd::arithmetic::div_mod::lemma_div_is_ordered(
                            1000 * (c as int),
                            1000 * (max_safe as int),
                            max_safe as int,
                        );
                        assert(1000 * (max_safe as int) / (max_safe as int) == 1000) by {
                            vstd::arithmetic::div_mod::lemma_div_multiples_vanish_fancy(
                                1000,
                                0,
                                max_safe as int,
                            );
                            vstd::arithmetic::mul::lemma_mul_is_commutative(
                                1000,
                                max_safe as int,
                            );
                        }
                    }
                }
                let headroom: u128 = if c < max_safe {
                    1000 - 1000 * (c as u128) / (max_safe as u128)
                } else {
                    0
                };
                proof {
                    lemma_mul_le(c as int, headroom as int, MAX_RATE_KBITS as int, 1000);
                }
                let next128: u128 = (c as u128) + (c as u128) * headroom / 10000 + 3 * (
                base_kbits as u128) / 100;
                state.next_rate = clamp_rate_exec(next128, min_kbits);
            } else {
                state.next_rate = clamp_rate_exec(state.current_rate as u128, min_kbits);
            }
            if state.delta_stat >= threshold {
                let c = state.current_rate;
                proof {
                    lemma_mul_le(
                        9 * (c as int),
                        load as int,
                        9 * MAX_RATE_KBITS as int,
                        0x1_0000_0000_0000_0000_0000,
                    );
                }
                let backoff: u128 = 9 * (c as u128) * load / 10000;
                if state.safe_rates.len() > 0 {
                    let len64: u64 = state.safe_rates.len() as u64;
                    let idx: usize = (rnd % len64) as usize;
                    let chosen = state.safe_rates[idx];
                    let proposal: u128 = if backoff <= (chosen as u128) {
                        backoff
                    } else {
                        chosen as u128
                    };
                    state.next_rate = clamp_rate_exec(proposal, min_kbits);
                } else {
                    state.next_rate = clamp_rate_exec(backoff, min_kbits);
                }
            }
        } else {
            state.next_rate = clamp_rate_exec(state.current_rate as u128, min_kbits);
        }
    }
    state.previous_bytes = state.current_bytes;
    state.prev_t_ms = now_ms;
}

/// Clamp a proposal into `[min_kbits, MAX_RATE_KBITS]`.
fn clamp_rate_exec(x: u128, min_kbits: u64) -> (r: u64)
    requires
        min_kbits <= MAX_RATE_KBITS,
    ensures
        r == clamp_rate(x as int, min_kbits),
{
    if x < (min_kbits as u128) {
        min_kbits
    } else if x > (MAX_RATE_KBITS as u128) {
        MAX_RATE_KBITS
    } else {
        x as u64
    }
}

/// Multiplication stays below the product of the bounds.
proof fn lemma_mul_le(a: int, b: int, ca: int, cb: int)
    by (nonlinear_arith)
    requires
        0 <= a <= ca,
        0 <= b <= cb,
    ensures
        a * b <= ca * cb,
{
}

/// Bounds of the utilisation and load quantities this tick computes.
proof fn lemma_calc_bounds(diff: int, elapsed: int, util: int, load: int, rate: int)
    requires
        elapsed >= 1,
        rate >= 1,
        0 <= diff < 0x1_0000_0000_0000_0000,
        util == 8 * diff / elapsed,
        load == 1000 * util / rate,
    ensures
        0 <= util <= 0x8_0000_0000_0000_0000,
        0 <= load <= 0x1_0000_0000_0000_0000_0000,
{
    vstd::arithmetic::div_mod::lemma_div_pos_is_pos(8 * diff, elapsed);
    vstd::arithmetic::div_mod::lemma_div_is_ordered_by_denominator(8 * diff, 1, elapsed);
    vstd::arithmetic::div_mod::lemma_div_pos_is_pos(1000 * util, rate);
    vstd::arithmetic::div_mod::lemma_div_is_ordered_by_denominator(1000 * util, 1, rate);
}

} // verus!
