use std::collections::HashMap;

use sqm_autorate::baseliner::{Baseliner, OwdMap, FACTOR_SCALE, OWD_SCALE};
use sqm_autorate::pinger::PingReply;

/// The EWMA retention factor for sample period `tick_s` and half-life
/// `half_life_s`, in fixed point over FACTOR_SCALE.
fn factor(tick_s: f64, half_life_s: f64) -> i64 {
    (((0.5f64).ln() / (half_life_s / tick_s)).exp() * FACTOR_SCALE as f64).round() as i64
}

fn baseliner() -> Baseliner {
    Baseliner {
        slow_factor: factor(0.5, 135.0),
        fast_factor: factor(0.5, 0.4),
        start_time_ms: 0,
    }
}

fn reply(addr: u128, down_ms: i64, up_ms: i64, t_ms: u64) -> PingReply {
    PingReply {
        reflector: addr,
        seq: 0,
        rtt: down_ms + up_ms,
        current_time: t_ms as i64,
        down_time: down_ms,
        up_time: up_ms,
        originate_timestamp: 0,
        receive_timestamp: 0,
        transmit_timestamp: 0,
        last_receive_time_ms: t_ms,
    }
}

#[test]
fn s1_idle_reflector_converges_exactly() {
    let bl = baseliner();
    let mut base: OwdMap = HashMap::new();
    let mut rec: OwdMap = HashMap::new();
    let addr = 0x0101_0101u128;
    let mut t = 1_000u64;
    for _ in 0..20 {
        let trig = bl.process_sample(&mut base, &mut rec, &reply(addr, 10, 10, t));
        assert!(!trig);
        t += 500;
    }
    // identical samples are a fixed point: both EWMAs sit exactly at 10 ms
    assert_eq!(base[&addr].down_ewma, 10 * OWD_SCALE);
    assert_eq!(base[&addr].up_ewma, 10 * OWD_SCALE);
    assert_eq!(rec[&addr].down_ewma, 10 * OWD_SCALE);
    assert_eq!(rec[&addr].up_ewma, 10 * OWD_SCALE);
    assert_eq!(base[&addr].last_receive_time_ms, t - 500);
}

#[test]
fn two_identical_samples_leave_ewmas_at_first_values() {
    let bl = baseliner();
    let mut base: OwdMap = HashMap::new();
    let mut rec: OwdMap = HashMap::new();
    let addr = 7u128;
    let r = reply(addr, 23, 31, 5_000);
    assert!(!bl.process_sample(&mut base, &mut rec, &r));
    let first_base = base[&addr];
    let first_rec = rec[&addr];
    assert!(!bl.process_sample(&mut base, &mut rec, &r));
    assert_eq!(base[&addr], first_base);
    assert_eq!(rec[&addr], first_rec);
    assert_eq!(base[&addr].down_ewma, 23 * OWD_SCALE);
    assert_eq!(base[&addr].up_ewma, 31 * OWD_SCALE);
}

#[test]
fn s2_spike_moves_recent_fast_and_baseline_slowly() {
    let bl = baseliner();
    let mut base: OwdMap = HashMap::new();
    let mut rec: OwdMap = HashMap::new();
    let addr = 9u128;
    let mut t = 1_000u64;
    for _ in 0..20 {
        bl.process_sample(&mut base, &mut rec, &reply(addr, 10, 10, t));
        t += 500;
    }
    let trig = bl.process_sample(&mut base, &mut rec, &reply(addr, 120, 120, t));
    assert!(!trig, "a 110 ms excursion is far below the 5000 ms threshold");
    let rec_ms = rec[&addr].down_ewma as f64 / OWD_SCALE as f64;
    let base_ms = base[&addr].down_ewma as f64 / OWD_SCALE as f64;
    // fast factor ~0.4204: recent ~ 0.42*10 + 0.58*120 ~ 73.8 ms
    assert!((72.0..76.0).contains(&rec_ms), "recent = {rec_ms}");
    // slow factor ~0.99744: baseline ~ 10.28 ms
    assert!((10.0..11.0).contains(&base_ms), "baseline = {base_ms}");
    // the ordering invariant holds
    assert!(base[&addr].down_ewma <= rec[&addr].down_ewma);
    assert!(base[&addr].up_ewma <= rec[&addr].up_ewma);
}

#[test]
fn s3_monster_spike_stale_marks_and_triggers() {
    let bl = baseliner();
    let mut base: OwdMap = HashMap::new();
    let mut rec: OwdMap = HashMap::new();
    let addr = 11u128;
    assert!(!bl.process_sample(&mut base, &mut rec, &reply(addr, 10, 10, 1_000)));
    let before = base[&addr];
    let trig = bl.process_sample(&mut base, &mut rec, &reply(addr, 6_000, 10, 1_500));
    assert!(trig);
    // stale-marked with the process start sentinel; EWMAs untouched
    assert_eq!(base[&addr].last_receive_time_ms, bl.start_time_ms);
    assert_eq!(rec[&addr].last_receive_time_ms, bl.start_time_ms);
    assert_eq!(base[&addr].down_ewma, before.down_ewma);
}

#[test]
fn delay_exactly_at_threshold_does_not_trigger() {
    let bl = baseliner();
    let mut base: OwdMap = HashMap::new();
    let mut rec: OwdMap = HashMap::new();
    let addr = 13u128;
    assert!(!bl.process_sample(&mut base, &mut rec, &reply(addr, 10, 10, 1_000)));
    // baseline.down_ewma is exactly 10 ms; 10 + 5000 is NOT an anomaly
    let trig = bl.process_sample(&mut base, &mut rec, &reply(addr, 5_010, 10, 1_500));
    assert!(!trig, "the comparison is strict");
}

#[test]
fn delay_just_over_threshold_triggers() {
    let bl = baseliner();
    let mut base: OwdMap = HashMap::new();
    let mut rec: OwdMap = HashMap::new();
    let addr = 14u128;
    assert!(!bl.process_sample(&mut base, &mut rec, &reply(addr, 10, 10, 1_000)));
    let trig = bl.process_sample(&mut base, &mut rec, &reply(addr, 5_011, 10, 1_500));
    assert!(trig);
}

#[test]
fn stale_gap_resets_both_records() {
    let bl = baseliner();
    let mut base: OwdMap = HashMap::new();
    let mut rec: OwdMap = HashMap::new();
    let addr = 15u128;
    bl.process_sample(&mut base, &mut rec, &reply(addr, 10, 10, 1_000));
    // a gap of more than 30 s: hard reset to the new sample's values
    let trig = bl.process_sample(&mut base, &mut rec, &reply(addr, 50, 60, 31_001));
    assert!(!trig);
    assert_eq!(base[&addr].down_ewma, 50 * OWD_SCALE);
    assert_eq!(base[&addr].up_ewma, 60 * OWD_SCALE);
    assert_eq!(rec[&addr].down_ewma, 50 * OWD_SCALE);
}

#[test]
fn gap_exactly_thirty_seconds_does_not_reset() {
    let bl = baseliner();
    let mut base: OwdMap = HashMap::new();
    let mut rec: OwdMap = HashMap::new();
    let addr = 16u128;
    bl.process_sample(&mut base, &mut rec, &reply(addr, 10, 10, 1_000));
    bl.process_sample(&mut base, &mut rec, &reply(addr, 50, 50, 31_000));
    // blended, not reset: strictly between 10 ms and 50 ms
    assert!(base[&addr].down_ewma > 10 * OWD_SCALE);
    assert!(base[&addr].down_ewma < 50 * OWD_SCALE);
}

#[test]
fn ewma_factor_formula_halves_after_one_half_life() {
    // factor(T, H)^(H/T) == 0.5 within 1e-12, checked in floating point on
    // the raw formula the fixed-point factors are derived from
    for (tick, half) in [(0.5f64, 135.0f64), (0.5, 0.4), (1.0, 60.0), (0.1, 2.5)] {
        let alpha = ((0.5f64).ln() / (half / tick)).exp();
        let decayed = alpha.powf(half / tick);
        assert!((decayed - 0.5).abs() < 1e-12, "tick={tick} half={half}: {decayed}");
    }
}
