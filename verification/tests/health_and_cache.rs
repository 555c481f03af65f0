use search_gateway::cache::TimedCache;
use search_gateway::health::HealthStore;

#[test]
fn a_fresh_store_lets_every_provider_be_tried() {
    let mut h = HealthStore::new(3, 30_000_000_000);
    assert!(h.is_available("tavily"));
    assert_eq!(h.penalty("tavily"), 0);
    let snaps = h.snapshots(&vec!["ddg".to_string()]);
    assert_eq!(snaps.len(), 1);
    assert_eq!(snaps[0].provider, "ddg");
    assert_eq!(snaps[0].successes, 0);
    assert!(!snaps[0].circuit_open);
    assert_eq!(snaps[0].circuit_remaining_ms, None);
}

#[test]
fn the_circuit_opens_at_the_threshold_and_closes_after_its_time() {
    let ms = 1_000_000u128;
    let mut h = HealthStore::new(3, 30_000 * ms);
    h.record_failure_at("p", "one".to_string(), 1_000 * ms);
    h.record_failure_at("p", "two".to_string(), 2_000 * ms);
    assert!(h.is_available_at("p", 2_000 * ms));
    assert_eq!(h.penalty("p"), 2);
    h.record_failure_at("p", "three".to_string(), 3_000 * ms);
    assert_eq!(h.penalty("p"), 3);
    assert!(!h.is_available_at("p", 3_000 * ms));
    assert!(!h.is_available_at("p", 33_000 * ms - 1));
    let snap = h.snapshot_at(&"p".to_string(), 13_000 * ms);
    assert!(snap.circuit_open);
    assert_eq!(snap.circuit_remaining_ms, Some(20_000));
    let snap = h.snapshot_at(&"p".to_string(), 13_000 * ms + 1);
    assert_eq!(snap.circuit_remaining_ms, Some(19_999));
    assert_eq!(snap.failures, 3);
    assert_eq!(snap.last_error.as_deref(), Some("three"));
    assert!(h.is_available_at("p", 33_000 * ms));
    let snap = h.snapshot_at(&"p".to_string(), 33_000 * ms + 1);
    assert!(!snap.circuit_open);
    assert_eq!(snap.consecutive_failures, 3);
}

#[test]
fn a_success_closes_the_circuit_and_clears_the_penalty() {
    let mut h = HealthStore::new(1, 30_000);
    h.record_failure_at("p", "down".to_string(), 0);
    assert!(!h.available_at("p", 10));
    h.record_success("p", 42);
    assert!(h.available_at("p", 10));
    assert_eq!(h.penalty("p"), 0);
    let snap = h.snapshot_at(&"p".to_string(), 10);
    assert_eq!(snap.successes, 1);
    assert_eq!(snap.failures, 1);
    assert_eq!(snap.last_error, None);
    assert_eq!(snap.last_latency_ms, Some(42));
}

#[test]
fn providers_are_tracked_apart() {
    let mut h = HealthStore::new(1, 30_000);
    h.record_failure_at("a", "down".to_string(), 0);
    assert!(!h.available_at("a", 1));
    assert!(h.available_at("b", 1));
    assert_eq!(h.penalty("b"), 0);
}

#[test]
fn cached_values_live_for_the_ttl() {
    let mut c: TimedCache<String> = TimedCache::new(120_000);
    c.insert_at("k".to_string(), "v".to_string(), 1_000);
    assert_eq!(c.get_at("k", 1_000).as_deref(), Some("v"));
    assert_eq!(c.get_at("k", 121_000).as_deref(), Some("v"));
    assert_eq!(c.get_at("other", 2_000), None);
    assert_eq!(c.get_at("k", 121_001), None);
    assert_eq!(c.get_at("k", 1_000), None);
}

#[test]
fn a_new_value_replaces_the_old_one() {
    let mut c: TimedCache<u32> = TimedCache::new(10_000_000_000);
    c.insert_at("k".to_string(), 1, 0);
    c.insert_at("k".to_string(), 2, 5);
    assert_eq!(c.get_at("k", 15), Some(2));
    c.insert("j".to_string(), 7);
    assert_eq!(c.get("j"), Some(7));
}

#[test]
fn a_check_after_the_circuit_expired_lets_the_next_failure_reopen_it() {
    let mut h = HealthStore::new(2, 1_000);
    h.record_failure_at("p", "a".to_string(), 0);
    h.record_failure_at("p", "b".to_string(), 10);
    assert!(!h.is_available_at("p", 500));
    assert!(h.is_available_at("p", 1_010));
    assert_eq!(h.penalty("p"), 2);
    h.record_failure_at("p", "c".to_string(), 2_000);
    assert_eq!(h.penalty("p"), 3);
    assert!(!h.is_available_at("p", 2_999));
    assert!(h.is_available_at("p", 3_000));
}

#[test]
fn the_store_clock_never_reads_below_a_time_it_has_seen() {
    let later = 1_000_000_000_000_000u128;
    let mut h = HealthStore::new(3, 1_000);
    h.record_failure_at("p", "x".to_string(), later);
    assert!(h.now_ns() >= later);
    assert!(h.is_available_at("q", later + 5));
    assert!(h.now_ns() >= later + 5);
}

#[test]
fn the_cache_clock_never_reads_below_a_time_it_has_seen() {
    let later = 1_000_000_000_000_000u128;
    let mut c: TimedCache<u32> = TimedCache::new(10);
    c.insert_at("k".to_string(), 4, later);
    assert!(c.now_ns() >= later);
    assert_eq!(c.get("k"), Some(4));
}

#[test]
fn failures_in_real_time_open_the_circuit_until_a_success() {
    let mut h = HealthStore::new(2, 60_000_000_000);
    h.record_failure("p", "first".to_string());
    assert!(h.is_available("p"));
    assert_eq!(h.penalty("p"), 1);
    h.record_failure("p", "second".to_string());
    assert_eq!(h.penalty("p"), 2);
    assert!(!h.is_available("p"));
    h.record_success("p", 7);
    assert_eq!(h.penalty("p"), 0);
    assert!(h.is_available("p"));
}

#[test]
fn a_zero_threshold_opens_the_circuit_at_the_first_failure() {
    let mut h = HealthStore::new(0, 1_000);
    assert!(h.is_available_at("p", 0));
    h.record_failure_at("p", "down".to_string(), 10);
    assert!(!h.is_available_at("p", 1_009));
    assert!(h.is_available_at("p", 1_010));
}
