use plex_pg_core::stmt_cache::{StmtCache, STMT_CACHE_SIZE};

#[test]
fn stmt_cache_initial_empty() {
    let cache = StmtCache::new();
    assert_eq!(cache.count(), 0);
    assert!(cache.lookup(12345).is_none());
}

#[test]
fn stmt_cache_add_and_lookup() {
    let mut cache = StmtCache::new();
    cache.add(12345, "ps_12345", 3, 1000);
    let entry = cache.lookup(12345).unwrap();
    assert_eq!(entry.sql_hash, 12345);
    assert_eq!(entry.stmt_name, "ps_12345");
    assert_eq!(entry.param_count, 3);
    assert_eq!(entry.last_used, 1000);
}

#[test]
fn stmt_cache_lookup_miss() {
    let mut cache = StmtCache::new();
    cache.add(12345, "ps_12345", 3, 1000);
    assert!(cache.lookup(99999).is_none());
}

#[test]
fn stmt_cache_lookup_zero_hash_returns_none() {
    let cache = StmtCache::new();
    assert!(cache.lookup(0).is_none());
}

#[test]
fn stmt_cache_add_zero_hash_is_noop() {
    let mut cache = StmtCache::new();
    let evicted = cache.add(0, "ps_0", 0, 0);
    assert!(evicted.is_none());
    assert_eq!(cache.count(), 0);
}

#[test]
fn stmt_cache_update_existing() {
    let mut cache = StmtCache::new();
    cache.add(12345, "ps_12345", 3, 1000);
    cache.add(12345, "ps_12345_v2", 5, 2000);
    let entry = cache.lookup(12345).unwrap();
    assert_eq!(entry.stmt_name, "ps_12345_v2");
    assert_eq!(entry.param_count, 5);
    assert_eq!(entry.last_used, 2000);
    assert_eq!(cache.count(), 1); // count should not increase
}

#[test]
fn stmt_cache_multiple_entries() {
    let mut cache = StmtCache::new();
    for i in 1..=10u64 {
        cache.add(i, &format!("ps_{}", i), i as i32, i as i64);
    }
    assert_eq!(cache.count(), 10);
    for i in 1..=10u64 {
        let entry = cache.lookup(i).unwrap();
        assert_eq!(entry.sql_hash, i);
    }
}

#[test]
fn stmt_cache_clear_returns_names() {
    let mut cache = StmtCache::new();
    cache.add(1, "ps_a", 1, 100);
    cache.add(2, "ps_b", 2, 200);
    cache.add(3, "ps_c", 3, 300);

    let evicted = cache.clear();
    assert_eq!(evicted.len(), 3);
    assert!(evicted.contains(&"ps_a".to_string()));
    assert!(evicted.contains(&"ps_b".to_string()));
    assert!(evicted.contains(&"ps_c".to_string()));
    assert_eq!(cache.count(), 0);
}

#[test]
fn stmt_cache_clear_empty_returns_empty() {
    let mut cache = StmtCache::new();
    let evicted = cache.clear();
    assert!(evicted.is_empty());
}

#[test]
fn stmt_cache_eviction_when_full() {
    let mut cache = StmtCache::new();
    // Fill the cache with STMT_CACHE_SIZE entries
    for i in 1..=STMT_CACHE_SIZE as u64 {
        cache.add(i, &format!("ps_{}", i), 1, i as i64);
    }
    assert_eq!(cache.count(), STMT_CACHE_SIZE);

    // Adding one more should evict the LRU (smallest last_used)
    let evicted = cache.add(99999, "ps_new", 1, 99999);
    assert!(evicted.is_some());
    // The evicted entry should be ps_1 (last_used=1, the oldest)
    assert_eq!(evicted.unwrap(), "ps_1");
}

#[test]
fn stmt_cache_linear_probing_handles_collision() {
    let mut cache = StmtCache::new();
    // Two hashes that map to the same bucket (same lower bits)
    let h1 = 1u64;
    let h2 = 1 + STMT_CACHE_SIZE as u64; // same bucket
    cache.add(h1, "ps_a", 1, 100);
    cache.add(h2, "ps_b", 2, 200);

    assert_eq!(cache.lookup(h1).unwrap().stmt_name, "ps_a");
    assert_eq!(cache.lookup(h2).unwrap().stmt_name, "ps_b");
}
