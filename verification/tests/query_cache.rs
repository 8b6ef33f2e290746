use plex_pg_core::hash::{
    fnv1a_hash_slice, get_time_ms_impl, rust_fnv1a_hash, FNV_OFFSET_BASIS, FNV_PRIME,
};
use std::time::{SystemTime, UNIX_EPOCH};

#[test]
fn fnv1a_empty_returns_offset_basis() {
    assert_eq!(fnv1a_hash_slice(b""), FNV_OFFSET_BASIS);
}

#[test]
fn fnv1a_single_null_byte() {
    let expected = FNV_OFFSET_BASIS.wrapping_mul(FNV_PRIME); // XOR with 0 changes nothing
    assert_eq!(fnv1a_hash_slice(&[0x00]), expected);
}

#[test]
fn fnv1a_single_byte() {
    let byte = b'A';
    let expected = (FNV_OFFSET_BASIS ^ byte as u64).wrapping_mul(FNV_PRIME);
    assert_eq!(fnv1a_hash_slice(&[byte]), expected);
}

#[test]
fn fnv1a_consistent() {
    let a = fnv1a_hash_slice(b"hello world");
    let b = fnv1a_hash_slice(b"hello world");
    assert_eq!(a, b);
}

#[test]
fn fnv1a_different_inputs_differ() {
    let h1 = fnv1a_hash_slice(b"SELECT * FROM foo");
    let h2 = fnv1a_hash_slice(b"SELECT * FROM bar");
    assert_ne!(h1, h2);
}

#[test]
fn fnv1a_order_sensitive() {
    assert_ne!(fnv1a_hash_slice(b"ab"), fnv1a_hash_slice(b"ba"));
}

#[test]
fn fnv1a_hello_known_value() {
    assert_eq!(fnv1a_hash_slice(b"hello"), 0xa430d84680aabd0b);
}

#[test]
fn fnv1a_foobar_known_value() {
    assert_eq!(fnv1a_hash_slice(b"foobar"), 0x85944171f73967e8);
}

#[test]
fn fnv1a_multi_zero_differs_from_single_zero() {
    let single = fnv1a_hash_slice(&[0x00]);
    let multi = fnv1a_hash_slice(&[0x00, 0x00]);
    assert_ne!(single, multi);
}

#[test]
fn fnv1a_prefix_differs_from_full() {
    let full = fnv1a_hash_slice(b"SELECT 1");
    let prefix = fnv1a_hash_slice(b"SELECT");
    assert_ne!(full, prefix);
}

#[test]
fn ffi_fnv1a_empty_len_zero() {
    assert_eq!(rust_fnv1a_hash(None), FNV_OFFSET_BASIS);
}

#[test]
fn ffi_fnv1a_matches_pure() {
    let data = b"SELECT * FROM metadata";
    let expected = fnv1a_hash_slice(data);
    assert_eq!(rust_fnv1a_hash(Some(&data[..])), expected);
}

#[test]
fn get_time_ms_reasonable_value() {
    const Y2K_MS: u64 = 946_684_800_000;
    assert!(
        get_time_ms_impl() > Y2K_MS,
        "clock appears to be before year 2000"
    );
}

#[test]
fn get_time_ms_non_decreasing() {
    let t1 = get_time_ms_impl();
    let t2 = get_time_ms_impl();
    assert!(t2 >= t1, "time went backwards: t1={t1} t2={t2}");
}

#[test]
fn ffi_get_time_ms_matches_system_time() {
    let ffi_val = get_time_ms_impl();
    let direct = SystemTime::now()
        .duration_since(UNIX_EPOCH)
        .unwrap()
        .as_millis() as u64;
    let diff = direct.abs_diff(ffi_val);
    assert!(
        diff < 100,
        "FFI time {ffi_val} deviates too far from direct read {direct}"
    );
}
