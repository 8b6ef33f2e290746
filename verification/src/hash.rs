//! Hashes of SQL text and of bytes, and the clock that cache entries are stamped with.

use std::time::Duration;
use std::time::SystemTime;
use std::time::SystemTimeError;
use vstd::prelude::*;
use vstd::string::*;

verus! {

/// Where the 64-bit FNV-1a hash begins.
pub const FNV_OFFSET_BASIS: u64 = 0xcbf29ce484222325;

/// What the 64-bit FNV-1a hash multiplies by.
pub const FNV_PRIME: u64 = 0x100000001b3;

/// One step of FNV-1a: the byte is added without carry, then the sum multiplied modulo 2^64.
pub open spec fn fnv_step(h: u64, b: u8) -> u64 {
    (((h ^ (b as u64)) * FNV_PRIME) % 0x1_0000_0000_0000_0000) as u64
}

/// The FNV-1a hash of some bytes.
pub open spec fn fnv(data: Seq<u8>) -> u64
    decreases data.len(),
{
    if data.len() == 0 {
        FNV_OFFSET_BASIS
    } else {
        fnv_step(fnv(data.drop_last()), data.last())
    }
}

/// The FNV-1a hash of some bytes.
pub fn fnv1a_hash_slice(data: &[u8]) -> (r: u64)
    ensures
        r == fnv(data@),
{
    let mut hash: u64 = FNV_OFFSET_BASIS;
    assert(data@.take(0) == Seq::<u8>::empty());
    for i in 0..data.len()
        invariant
            hash == fnv(data@.take(i as int)),
    {
        proof {
            assert(data@.take(i + 1).drop_last() == data@.take(i as int));
        }
        let mixed: u64 = hash ^ (data[i] as u64);
        hash = mixed.wrapping_mul(FNV_PRIME);
    }
    assert(data@.take(data@.len() as int) == data@);
    hash
}

/// The FNV-1a hash of some bytes; without any it is where the hash begins.
pub fn rust_fnv1a_hash(data: Option<&[u8]>) -> (r: u64)
    ensures
        r == (match data {
            Some(d) => fnv(d@),
            None => FNV_OFFSET_BASIS,
        }),
{
    match data {
        Some(d) => fnv1a_hash_slice(d),
        None => FNV_OFFSET_BASIS,
    }
}

/// The FNV-1a hash of the bytes of a string.
pub fn fnv1a_str(s: &str) -> (r: u64)
    ensures
        r == fnv(s.spec_bytes()),
{
    fnv1a_hash_slice(s.as_bytes())
}

/// The hash under which a statement is kept; zero where there is no text.
pub fn rust_hash_sql(sql: Option<&str>) -> (r: u64)
    ensures
        r == (match sql {
            Some(s) => fnv(s.spec_bytes()),
            None => 0u64,
        }),
{
    match sql {
        Some(s) => fnv1a_str(s),
        None => 0,
    }
}

/// One step of the declared-type hash: times 33 plus the byte, modulo 2^32.
pub open spec fn decltype_step(h: u32, b: u8) -> u32 {
    ((h * 33 + b) % 0x1_0000_0000) as u32
}

/// The hash of a declared type's name.
pub open spec fn decltype_hash(data: Seq<u8>) -> u32
    decreases data.len(),
{
    if data.len() == 0 {
        5381
    } else {
        decltype_step(decltype_hash(data.drop_last()), data.last())
    }
}

proof fn lemma_times_33(h: u32)
    ensures
        (((h << 5u32) as u32) + h) % 0x1_0000_0000 == (h * 33) % 0x1_0000_0000,
{
    assert((((h << 5u32) as u32) + h) % 0x1_0000_0000 == (h * 33) % 0x1_0000_0000) by (bit_vector);
}

/// The hash of a declared type's name; no name counts as the empty one.
pub fn rust_decltype_hash(name: Option<&str>) -> (r: u32)
    ensures
        r == decltype_hash(
            match name {
                Some(s) => s.spec_bytes(),
                None => Seq::<u8>::empty(),
            },
        ),
{
    let mut hash: u32 = 5381;
    if let Some(s) = name {
        let bytes = s.as_bytes();
        assert(bytes@.take(0) == Seq::<u8>::empty());
        for i in 0..bytes.len()
            invariant
                hash == decltype_hash(bytes@.take(i as int)),
        {
            proof {
                assert(bytes@.take(i + 1).drop_last() == bytes@.take(i as int));
                lemma_times_33(hash);
            }
            let shifted: u32 = hash << 5;
            hash = shifted.wrapping_add(hash).wrapping_add(bytes[i] as u32);
        }
        assert(bytes@.take(bytes@.len() as int) == bytes@);
    }
    hash
}

/// `std::time::SystemTime`, a point in time.
#[verifier::external_type_specification]
#[verifier::external_body]
pub struct ExSystemTime(SystemTime);

/// `std::time::SystemTimeError`, which tells that a point in time lies before another.
#[verifier::external_type_specification]
#[verifier::external_body]
pub struct ExSystemTimeError(SystemTimeError);

/// `SystemTime::now`: the present time. Nothing is promised of it.
pub assume_specification[ SystemTime::now ]() -> SystemTime
;

/// `SystemTime::duration_since`: the span between two points in time, or an error where the second
/// is later. Points in time are opaque here, so nothing is promised of it.
pub assume_specification[ SystemTime::duration_since ](
    t: &SystemTime,
    earlier: SystemTime,
) -> Result<Duration, SystemTimeError>
;

/// `Duration::as_millis`: the span in whole milliseconds. A span is opaque here, so nothing is
/// promised of the number.
pub assume_specification[ Duration::as_millis ](d: &Duration) -> u128
;

/// `std::time::UNIX_EPOCH`: the point in time from which seconds are counted.
#[verifier::external_body]
fn epoch() -> SystemTime {
    std::time::UNIX_EPOCH
}

/// A count of milliseconds as the cache keeps it: the low 64 bits, and zero for a clock that
/// stands before the epoch.
pub fn stamp(millis: Option<u128>) -> (r: u64)
    ensures
        r == (match millis {
            Some(m) => (m % 0x1_0000_0000_0000_0000) as u64,
            None => 0u64,
        }),
{
    match millis {
        Some(m) => (m % 0x1_0000_0000_0000_0000u128) as u64,
        None => 0,
    }
}

/// The present time in milliseconds since the epoch, kept as `stamp` keeps it. The number rests
/// on the machine's clock, so nothing is promised of it.
pub fn get_time_ms_impl() -> u64 {
    let now = SystemTime::now();
    match now.duration_since(epoch()) {
        Ok(d) => stamp(Some(d.as_millis())),
        Err(_) => stamp(None),
    }
}

} // verus!
