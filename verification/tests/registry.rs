use plex_pg_core::registry::{ConnectionRegistry, DbToPool};

#[test]
fn pg_client_registry_register_and_find() {
    let mut reg = ConnectionRegistry::new();
    reg.register(0x100, 0xAAA);
    assert_eq!(reg.find(0x100), Some(0xAAA));
}

#[test]
fn pg_client_registry_find_missing_returns_none() {
    let reg = ConnectionRegistry::new();
    assert_eq!(reg.find(0x100), None);
}

#[test]
fn registry_unregister_removes() {
    let mut reg = ConnectionRegistry::new();
    reg.register(0x100, 0xAAA);
    assert_eq!(reg.unregister(0x100), Some(0xAAA));
    assert_eq!(reg.find(0x100), None);
}

#[test]
fn registry_unregister_missing_returns_none() {
    let mut reg = ConnectionRegistry::new();
    assert_eq!(reg.unregister(0x100), None);
}

#[test]
fn registry_multiple_entries() {
    let mut reg = ConnectionRegistry::new();
    reg.register(0x100, 0xAAA);
    reg.register(0x200, 0xBBB);
    reg.register(0x300, 0xCCC);
    assert_eq!(reg.find(0x100), Some(0xAAA));
    assert_eq!(reg.find(0x200), Some(0xBBB));
    assert_eq!(reg.find(0x300), Some(0xCCC));
    assert_eq!(reg.len(), 3);
}

#[test]
fn registry_overwrite_existing() {
    let mut reg = ConnectionRegistry::new();
    reg.register(0x100, 0xAAA);
    reg.register(0x100, 0xBBB);
    assert_eq!(reg.find(0x100), Some(0xBBB));
    assert_eq!(reg.len(), 1);
}

#[test]
fn pg_client_registry_clear_empties_all() {
    let mut reg = ConnectionRegistry::new();
    reg.register(0x100, 0xAAA);
    reg.register(0x200, 0xBBB);
    reg.clear();
    assert_eq!(reg.len(), 0);
    assert_eq!(reg.find(0x100), None);
}

#[test]
fn registry_find_any_library() {
    let mut reg = ConnectionRegistry::new();
    reg.register(0x100, 0xAAA);
    reg.register(0x200, 0xBBB);
    // Predicate: "is library" if conn addr is 0xBBB
    let result = reg.find_any_library(|conn| conn == 0xBBB);
    assert_eq!(result, Some(0xBBB));
}

#[test]
fn registry_find_any_library_none_match() {
    let mut reg = ConnectionRegistry::new();
    reg.register(0x100, 0xAAA);
    let result = reg.find_any_library(|_| false);
    assert_eq!(result, None);
}

#[test]
fn db_to_pool_assign_and_find() {
    let mut dtp = DbToPool::new();
    dtp.assign(0x100, 5);
    assert_eq!(dtp.find(0x100), Some(5));
}

#[test]
fn db_to_pool_find_missing_returns_none() {
    let dtp = DbToPool::new();
    assert_eq!(dtp.find(0x100), None);
}

#[test]
fn db_to_pool_release_removes() {
    let mut dtp = DbToPool::new();
    dtp.assign(0x100, 5);
    assert_eq!(dtp.release(0x100), Some(5));
    assert_eq!(dtp.find(0x100), None);
}

#[test]
fn db_to_pool_multiple_handles_same_slot() {
    // Multiple sqlite3* handles can share a pool slot
    let mut dtp = DbToPool::new();
    dtp.assign(0x100, 5);
    dtp.assign(0x200, 5);
    assert_eq!(dtp.find(0x100), Some(5));
    assert_eq!(dtp.find(0x200), Some(5));
}

#[test]
fn db_to_pool_clear() {
    let mut dtp = DbToPool::new();
    dtp.assign(0x100, 5);
    dtp.assign(0x200, 7);
    dtp.clear();
    assert_eq!(dtp.len(), 0);
}
