use std::collections::HashMap;

use sqm_autorate::baseliner::{OwdMap, ReflectorStats, OWD_SCALE};
use sqm_autorate::reflector_selector::{ReflectorSelector, CANDIDATES_PER_CYCLE};

fn stats(down_ms: i64, up_ms: i64) -> ReflectorStats {
    ReflectorStats {
        down_ewma: down_ms * OWD_SCALE,
        up_ewma: up_ms * OWD_SCALE,
        last_receive_time_ms: 1_000,
    }
}

fn selector(pool_size: u128) -> ReflectorSelector {
    ReflectorSelector {
        reflector_pool: (100..100 + pool_size).collect(),
        num_reflectors: 5,
    }
}

#[test]
fn expand_keeps_current_peers_and_draws_from_the_pool() {
    let sel = selector(20);
    let current: Vec<u128> = vec![1, 2, 3, 4, 5];
    let next = sel.expand_peers(&current);
    assert_eq!(next.len(), current.len() + CANDIDATES_PER_CYCLE);
    assert_eq!(&next[..5], &current[..]);
    for p in &next[5..] {
        assert!(sel.reflector_pool.contains(p), "drawn candidate {p} not from pool");
    }
}

#[test]
fn s6_one_cycle_converges_to_num_reflectors() {
    let sel = selector(20);
    let current: Vec<u128> = vec![100, 101, 102, 103, 104];
    let next = sel.expand_peers(&current);
    // every expanded peer has been measured
    let mut rec: OwdMap = HashMap::new();
    for (i, p) in next.iter().enumerate() {
        rec.insert(*p, stats(10 + i as i64, 10));
    }
    let chosen = sel.choose_peers(&next, &rec);
    assert_eq!(chosen.len(), 5, "exactly num_reflectors survive");
    for p in &chosen {
        assert!(rec.contains_key(p));
        assert!(next.contains(p));
    }
}

#[test]
fn peer_set_never_exceeds_measurable_candidates() {
    let sel = selector(20);
    // only 3 of the peers have any measurement
    let next: Vec<u128> = vec![1, 2, 3, 4, 5, 6, 7, 8];
    let mut rec: OwdMap = HashMap::new();
    rec.insert(2, stats(10, 10));
    rec.insert(4, stats(20, 10));
    rec.insert(6, stats(30, 10));
    let chosen = sel.choose_peers(&next, &rec);
    assert_eq!(chosen.len(), 3);
    assert!(chosen.len() <= sel.num_reflectors as usize);
    for p in &chosen {
        assert!([2u128, 4, 6].contains(p));
    }
}

#[test]
fn unmeasured_peers_are_skipped_entirely() {
    let sel = selector(20);
    let next: Vec<u128> = vec![1, 2, 3];
    let rec: OwdMap = HashMap::new();
    let chosen = sel.choose_peers(&next, &rec);
    assert!(chosen.is_empty());
}

#[test]
fn selection_keeps_only_fast_half_when_pool_is_large() {
    let sel = selector(20);
    // 20 candidates with round trips 1..20 ms: the survivors must come from
    // the 2 * num_reflectors = 10 fastest
    let next: Vec<u128> = (0..20).collect();
    let mut rec: OwdMap = HashMap::new();
    for p in 0..20u128 {
        rec.insert(p, stats(1 + p as i64, 0));
    }
    let chosen = sel.choose_peers(&next, &rec);
    assert_eq!(chosen.len(), 5);
    for p in &chosen {
        assert!(*p < 10, "peer {p} is not among the ten fastest");
    }
}
