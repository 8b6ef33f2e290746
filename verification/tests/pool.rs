use plex_pg_core::pool::{
    tls_pool_cache_clear, tls_pool_cache_get, tls_pool_cache_set, PoolManager, PoolSlot, TlsPoolCache,
    POOL_SIZE_MAX, SLOT_ERROR, SLOT_FREE, SLOT_READY, SLOT_RECONNECTING, SLOT_RESERVED,
};

#[test]
fn pool_slot_initial_state_is_free() {
    let slot = PoolSlot::new();
    assert_eq!(slot.state, SLOT_FREE);
    assert!(slot.conn == 0);
    assert_eq!(slot.owner_thread, 0);
    assert_eq!(slot.generation, 0);
}

#[test]
fn pool_slot_claim_free_succeeds() {
    let mut slot = PoolSlot::new();
    assert!(slot.try_claim_free());
    assert_eq!(slot.state, SLOT_RESERVED);
}

#[test]
fn pool_slot_claim_free_fails_when_reserved() {
    let mut slot = PoolSlot::new();
    assert!(slot.try_claim_free());
    // Second claim must fail
    assert!(!slot.try_claim_free());
}

#[test]
fn pool_slot_claim_free_fails_when_ready() {
    let mut slot = PoolSlot::new();
    slot.state = SLOT_READY;
    assert!(!slot.try_claim_free());
}

#[test]
fn pool_slot_mark_ready_after_reserve() {
    let mut slot = PoolSlot::new();
    assert!(slot.try_claim_free());
    slot.mark_ready();
    assert_eq!(slot.state, SLOT_READY);
}

#[test]
fn pool_slot_mark_error_after_reserve() {
    let mut slot = PoolSlot::new();
    assert!(slot.try_claim_free());
    slot.mark_error();
    assert_eq!(slot.state, SLOT_ERROR);
}

#[test]
fn pool_slot_begin_reconnect_from_ready() {
    let mut slot = PoolSlot::new();
    slot.state = SLOT_READY;
    assert!(slot.try_begin_reconnect());
    assert_eq!(slot.state, SLOT_RECONNECTING);
}

#[test]
fn pool_slot_begin_reconnect_fails_from_free() {
    let mut slot = PoolSlot::new();
    assert!(!slot.try_begin_reconnect());
}

#[test]
fn pool_slot_reclaim_error_succeeds() {
    let mut slot = PoolSlot::new();
    slot.state = SLOT_ERROR;
    assert!(slot.try_reclaim_error());
    assert_eq!(slot.state, SLOT_RESERVED);
}

#[test]
fn pool_slot_reclaim_error_fails_from_ready() {
    let mut slot = PoolSlot::new();
    slot.state = SLOT_READY;
    assert!(!slot.try_reclaim_error());
}

#[test]
fn pool_slot_reclaim_zombie_from_ready() {
    let mut slot = PoolSlot::new();
    slot.state = SLOT_READY;
    assert!(slot.try_reclaim_zombie());
    assert_eq!(slot.state, SLOT_FREE);
}

#[test]
fn pool_slot_reclaim_zombie_fails_from_free() {
    let mut slot = PoolSlot::new();
    assert!(!slot.try_reclaim_zombie());
}

#[test]
fn pool_slot_release_clears_owner_and_state() {
    let mut slot = PoolSlot::new();
    slot.state = SLOT_READY;
    slot.owner_thread = 12345;
    slot.release();
    assert_eq!(slot.state, SLOT_FREE);
    assert_eq!(slot.owner_thread, 0);
}

#[test]
fn pool_slot_full_lifecycle() {
    // FREE → RESERVED → READY → RECONNECTING → READY → FREE
    let mut slot = PoolSlot::new();
    assert!(slot.try_claim_free()); // FREE → RESERVED
    slot.mark_ready(); // RESERVED → READY
    assert!(slot.try_begin_reconnect()); // READY → RECONNECTING
    slot.mark_ready(); // RECONNECTING → READY
    slot.release(); // READY → FREE
    assert_eq!(slot.state, SLOT_FREE);
}

#[test]
fn pool_slot_error_recovery_lifecycle() {
    // FREE → RESERVED → ERROR → RESERVED → READY → FREE
    let mut slot = PoolSlot::new();
    assert!(slot.try_claim_free()); // FREE → RESERVED
    slot.mark_error(); // RESERVED → ERROR
    assert!(slot.try_reclaim_error()); // ERROR → RESERVED
    slot.mark_ready(); // RESERVED → READY
    slot.release(); // READY → FREE
    assert_eq!(slot.state, SLOT_FREE);
}

#[test]
fn tls_pool_cache_initially_empty() {
    let mut cache = TlsPoolCache::empty();
    tls_pool_cache_clear(&mut cache);
    assert!(tls_pool_cache_get(&cache, 0x1234).is_none());
}

#[test]
fn tls_pool_cache_set_and_get() {
    let mut cache = TlsPoolCache::empty();
    tls_pool_cache_set(&mut cache, 0xABCD, 5, 42);
    let result = tls_pool_cache_get(&cache, 0xABCD);
    assert_eq!(result, Some((5, 42)));
}

#[test]
fn tls_pool_cache_miss_for_different_db() {
    let mut cache = TlsPoolCache::empty();
    tls_pool_cache_set(&mut cache, 0xABCD, 5, 42);
    assert!(tls_pool_cache_get(&cache, 0x9999).is_none());
}

#[test]
fn tls_pool_cache_clear_makes_miss() {
    let mut cache = TlsPoolCache::empty();
    tls_pool_cache_set(&mut cache, 0xABCD, 5, 42);
    tls_pool_cache_clear(&mut cache);
    assert!(tls_pool_cache_get(&cache, 0xABCD).is_none());
}

#[test]
fn tls_pool_cache_overwrite() {
    let mut cache = TlsPoolCache::empty();
    tls_pool_cache_set(&mut cache, 0xABCD, 5, 42);
    tls_pool_cache_set(&mut cache, 0xABCD, 7, 99);
    assert_eq!(tls_pool_cache_get(&cache, 0xABCD), Some((7, 99)));
}

#[test]
fn tls_pool_cache_generation_detects_stale() {
    let mut cache = TlsPoolCache::empty();
    let mut pool = PoolManager::new(10, 77);
    let fake_conn = 0xDEADusize;

    // Simulate: slot 3 is ready with generation 5
    pool.slots[3].conn = fake_conn;
    pool.slots[3].state = SLOT_READY;
    pool.slots[3].generation = 5;

    // Cache it in TLS
    tls_pool_cache_set(&mut cache, 0xAAAA, 3, 5);

    // Verify fast path would succeed
    let (idx, gen) = tls_pool_cache_get(&cache, 0xAAAA).unwrap();
    assert_eq!(idx, 3);
    assert_eq!(
        pool.slots[idx as usize].generation,
        gen
    );

    // Now simulate reaper bumping generation
    pool.slots[3].generation += 1;

    // TLS cache still returns the old generation
    let (idx, gen) = tls_pool_cache_get(&cache, 0xAAAA).unwrap();
    // But the slot generation no longer matches → stale!
    assert_ne!(
        pool.slots[idx as usize].generation,
        gen
    );
}

#[test]
fn pool_manager_creates_slots() {
    let mut pm = PoolManager::new(10, 77);
    assert_eq!(pm.pool_size(), 10);
    // slots.len() is always POOL_SIZE_MAX for auto-grow support
    assert_eq!(pm.slots.len(), POOL_SIZE_MAX);
    for slot in pm.slots.iter() {
        assert_eq!(slot.state, SLOT_FREE);
    }
}

#[test]
fn pool_manager_validate_connection_found() {
    let mut pm = PoolManager::new(5, 77);
    let fake_conn = 0xBEEFusize;
    pm.slots[2].conn = fake_conn;
    pm.slots[2].state = SLOT_READY;
    assert!(pm.validate_connection(fake_conn));
}

#[test]
fn pool_manager_validate_connection_not_found() {
    let pm = PoolManager::new(5, 77);
    let fake_conn = 0xBEEFusize;
    assert!(!pm.validate_connection(fake_conn));
}

#[test]
fn pool_manager_validate_connection_not_ready() {
    let mut pm = PoolManager::new(5, 77);
    let fake_conn = 0xBEEFusize;
    pm.slots[2].conn = fake_conn;
    pm.slots[2].state = SLOT_FREE; // not READY
    assert!(!pm.validate_connection(fake_conn));
}

#[test]
fn pool_manager_touch_connection() {
    let mut pm = PoolManager::new(5, 77);
    let fake_conn = 0xBEEFusize;
    pm.slots[1].conn = fake_conn;
    pm.slots[1].last_used = 100;

    pm.touch_connection(fake_conn, 999);
    assert_eq!(pm.slots[1].last_used, 999);
}

#[test]
fn pool_manager_touch_unknown_conn_is_noop() {
    let mut pm = PoolManager::new(5, 77);
    pm.touch_connection(0xBEEFusize, 999);
    // Should not panic or modify anything
}

#[test]
fn global_metadata_id_default_zero() {
    let pm = PoolManager::new(1, 77);
    assert_eq!(pm.global_metadata_id, 0);
}

#[test]
fn global_metadata_id_set_and_get() {
    let mut pm = PoolManager::new(1, 77);
    pm.global_metadata_id = 12345;
    assert_eq!(pm.global_metadata_id, 12345);
}

#[test]
fn global_last_insert_rowid_set_and_get() {
    let mut pm = PoolManager::new(1, 77);
    pm.global_last_insert_rowid = 67890;
    assert_eq!(pm.global_last_insert_rowid, 67890);
}

#[test]
fn pool_reset_for_child_clears_all_slots() {
    let mut cache = TlsPoolCache::empty();
    let mut pm = PoolManager::new(5, 77);
    let fake_conn = 0xBEEFusize;

    // Set up slot 2 as READY with a connection
    pm.slots[2].conn = fake_conn;
    pm.slots[2].state = SLOT_READY;
    pm.slots[2].owner_thread = 999;
    pm.slots[2].generation = 5;

    pm.registry.register(0x100, 0xAAA);
    pm.db_to_pool.assign(0x100, 2);

    pm.reset_for_child(78, &mut cache);

    // All slots should be FREE with null conn
    for slot in pm.slots.iter() {
        assert_eq!(slot.state, SLOT_FREE);
        assert!(slot.conn == 0);
        assert_eq!(slot.owner_thread, 0);
    }
    // Generation should have been bumped
    assert!(pm.slots[2].generation > 5);

    // Registry and db_to_pool should be empty
    assert_eq!(pm.registry.len(), 0);
    assert_eq!(pm.db_to_pool.len(), 0);
}

#[test]
fn reaper_ignores_active_slots() {
    let mut pm = PoolManager::new(5, 77);
    let fake = 0xBEEFusize;
    pm.slots[0].conn = fake;
    pm.slots[0].state = SLOT_READY;
    pm.slots[0].last_used = 0;

    // Reaper should not touch READY slots
    let to_destroy = pm.reap_idle(10000);
    assert!(to_destroy.is_empty());
    assert_eq!(pm.slots[0].state, SLOT_READY);
}

#[test]
fn reaper_destroys_idle_free_slots() {
    let mut pm = PoolManager::new(5, 77);
    pm.idle_timeout_secs = 60;
    let fake = 0xBEEFusize;

    // Slot 0: FREE with connection, last used 100 seconds ago
    pm.slots[0].conn = fake;
    pm.slots[0].state = SLOT_FREE;
    pm.slots[0].last_used = 100;

    let to_destroy = pm.reap_idle(200); // 200 - 100 = 100 > 60 timeout
    assert_eq!(to_destroy.len(), 1);
    assert_eq!(to_destroy[0].0, 0); // slot index
    assert_eq!(to_destroy[0].1, fake); // connection pointer

    // Slot should now be FREE with null conn
    assert_eq!(pm.slots[0].state, SLOT_FREE);
    assert!(pm.slots[0].conn == 0);
}

#[test]
fn reaper_skips_recently_used() {
    let mut pm = PoolManager::new(5, 77);
    pm.idle_timeout_secs = 60;
    let fake = 0xBEEFusize;

    pm.slots[0].conn = fake;
    pm.slots[0].state = SLOT_FREE;
    pm.slots[0].last_used = 180;

    let to_destroy = pm.reap_idle(200); // 200 - 180 = 20 < 60 timeout
    assert!(to_destroy.is_empty());
    // Connection should still be there
    assert_eq!(pm.slots[0].conn, fake);
}

#[test]
fn reaper_skips_free_slot_without_conn() {
    let mut pm = PoolManager::new(5, 77);
    pm.idle_timeout_secs = 60;
    // Slot 0: FREE, no connection
    pm.slots[0].state = SLOT_FREE;
    pm.slots[0].last_used = 0;

    let to_destroy = pm.reap_idle(10000);
    assert!(to_destroy.is_empty());
}

#[test]
fn reaper_bumps_generation_before_destroying() {
    let mut pm = PoolManager::new(5, 77);
    pm.idle_timeout_secs = 60;
    let fake = 0xBEEFusize;

    pm.slots[0].conn = fake;
    pm.slots[0].state = SLOT_FREE;
    pm.slots[0].last_used = 0;
    pm.slots[0].generation = 10;

    let _to_destroy = pm.reap_idle(10000);

    // Generation must have been incremented (invalidates TLS caches)
    assert!(pm.slots[0].generation > 10);
}

#[test]
fn reaper_critical_fix_tls_generation_mismatch() {
    // After reaping, a TLS-cached (slot_index, generation) pair must
    // fail validation because the generation was bumped.
    let mut pm = PoolManager::new(5, 77);
    pm.idle_timeout_secs = 60;
    let fake = 0xBEEFusize;

    pm.slots[2].conn = fake;
    pm.slots[2].state = SLOT_FREE;
    pm.slots[2].last_used = 0;
    pm.slots[2].generation = 7;

    // Simulate: thread cached this slot at generation 7
    let cached_gen = pm.slots[2].generation;
    assert_eq!(cached_gen, 7);

    // Reaper runs
    let _to_destroy = pm.reap_idle(10000);

    // Now the cached generation doesn't match → stale!
    let current_gen = pm.slots[2].generation;
    assert_ne!(cached_gen, current_gen, "Generation must change after reap");

    // The connection pointer is gone
    assert!(pm.slots[2].conn == 0);
}
