use aims_backend::cache::BoundedTtlCache;
use aims_backend::flow::{Cache, Plan};

#[test]
fn ttl_returns_value_before_expiry_and_absent_after() {
    let mut c: BoundedTtlCache<String> = BoundedTtlCache::new(50, 10);
    let k = String::from("attendance_tok1234567");
    c.set(&k, String::from("payload"), 100);
    assert_eq!(c.get(&k, 100), Some(&String::from("payload")));
    assert_eq!(c.get(&k, 149), Some(&String::from("payload")));
    assert_eq!(c.get(&k, 150), None);
    assert_eq!(c.get(&k, 1000), None);
}

#[test]
fn ttl_read_before_insertion_time_is_fresh() {
    let mut c: BoundedTtlCache<u64> = BoundedTtlCache::new(50, 10);
    let k = String::from("k");
    c.set(&k, 1, 100);
    assert_eq!(c.get(&k, 99), Some(&1));
}

#[test]
fn capacity_never_exceeded_and_eviction_deterministic() {
    let mut c: BoundedTtlCache<u64> = BoundedTtlCache::new(1000, 3);
    for i in 0..4u64 {
        let k = format!("k{}", i);
        c.set(&k, i, 10 + i);
    }
    assert_eq!(c.len(), 3);
    assert_eq!(c.get(&String::from("k0"), 20), None);
    assert_eq!(c.get(&String::from("k1"), 20), Some(&1));
    assert_eq!(c.get(&String::from("k2"), 20), Some(&2));
    assert_eq!(c.get(&String::from("k3"), 20), Some(&3));
}

#[test]
fn reinsertion_refreshes_age_and_position() {
    let mut c: BoundedTtlCache<u64> = BoundedTtlCache::new(1000, 2);
    let a = String::from("a");
    let b = String::from("b");
    let d = String::from("d");
    c.set(&a, 1, 10);
    c.set(&b, 2, 11);
    c.set(&a, 3, 12);
    c.set(&d, 4, 13);
    assert_eq!(c.len(), 2);
    assert_eq!(c.get(&b, 14), None);
    assert_eq!(c.get(&a, 14), Some(&3));
    assert_eq!(c.get(&d, 14), Some(&4));
}

#[test]
fn clear_expired_drops_only_stale_entries() {
    let mut c: BoundedTtlCache<u64> = BoundedTtlCache::new(100, 10);
    c.set(&String::from("old"), 1, 0);
    c.set(&String::from("new"), 2, 90);
    c.clear_expired(120);
    assert_eq!(c.len(), 1);
    assert_eq!(c.get(&String::from("old"), 120), None);
    assert_eq!(c.get(&String::from("new"), 120), Some(&2));
}

#[test]
fn cache_miss_then_compute_then_hit_serves_identical_value() {
    let mut cache: Cache<String> = Cache::new();
    let key = String::from("quiz_tok1234567");
    let mut upstream_calls = 0u32;

    // First request: miss, nothing pending, so this caller fetches.
    assert_eq!(cache.get_quiz(&key, 1000), None);
    let plan = cache.plan_quiz(&key, 1000);
    assert_eq!(plan, Plan::FetchAndPublish);
    upstream_calls += 1;
    let computed = String::from("quiz-body");
    let waiters = cache.publish_quiz(&key, computed.clone(), 1500);
    assert_eq!(waiters, 0);

    // Second request within the TTL: served from cache, no second fetch.
    let plan2 = cache.plan_quiz(&key, 2000);
    assert_eq!(plan2, Plan::UseCached);
    assert_eq!(cache.get_quiz(&key, 2000), Some(&computed));
    assert_eq!(upstream_calls, 1);
}

#[test]
fn facade_stats_count_entries_per_category() {
    let mut cache: Cache<u64> = Cache::new();
    cache.set_attendance(&String::from("attendance_a"), 1, 0);
    cache.set_attendance(&String::from("attendance_b"), 2, 0);
    cache.set_quiz(&String::from("quiz_a"), 3, 0);
    cache.set_all_attendance(&String::from("attendance_c"), 4, 0);
    cache.register_pending(&String::from("quiz_a"));
    let stats = cache.get_stats();
    assert_eq!(stats.attendance_cache_size, 2);
    assert_eq!(stats.quiz_cache_size, 1);
    assert_eq!(stats.all_attendance_cache_size, 1);
    assert_eq!(stats.pending_requests, 1);
}

#[test]
fn facade_categories_are_independent() {
    let mut cache: Cache<u64> = Cache::new();
    let k = String::from("attendance_shared");
    cache.set_attendance(&k, 1, 0);
    assert_eq!(cache.get_all_attendance(&k, 0), None);
    assert_eq!(cache.get_quiz(&k, 0), None);
    assert_eq!(cache.get_attendance(&k, 0), Some(&1));
}
