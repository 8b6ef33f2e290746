use plex_pg_core::metadata::Answer;
use plex_pg_core::value::{
    place_of, rust_my_sqlite3_value_blob, rust_my_sqlite3_value_bytes, rust_my_sqlite3_value_int,
    rust_my_sqlite3_value_int64, rust_my_sqlite3_value_text, rust_my_sqlite3_value_type,
    sqlite_type_name, FakeValue, Handed, Place, Ring, Rows, ValueHandle, SQLITE_NULL, SQLITE_TEXT,
};

fn cell(row: i32, col: i32) -> ValueHandle {
    ValueHandle::Fake(FakeValue {
        stmt: Some(Rows { has_result: true, num_rows: 2, num_cols: 3 }),
        same_thread: true,
        row_idx: row,
        col_idx: col,
    })
}

#[test]
fn types_have_names() {
    let names: Vec<&str> = (1..=6).map(sqlite_type_name).collect();
    assert_eq!(names, ["INTEGER", "FLOAT", "TEXT", "BLOB", "NULL", "UNKNOWN"]);
}

#[test]
fn values_are_in_their_cells() {
    assert_eq!(place_of(&cell(1, 2)), Place::Cell { row: 1, col: 2 });
    for h in [cell(2, 0), cell(-1, 0), cell(0, 3), cell(0, -1)] {
        assert_eq!(place_of(&h), Place::Nowhere);
    }
    assert_eq!(place_of(&ValueHandle::Null), Place::Nowhere);
    assert_eq!(place_of(&ValueHandle::Local), Place::Local);
    let orphan = FakeValue { stmt: None, same_thread: true, row_idx: 0, col_idx: 0 };
    assert_eq!(place_of(&ValueHandle::Fake(orphan)), Place::Local);
}

#[test]
fn values_of_other_threads_are_null() {
    let other = ValueHandle::Fake(FakeValue {
        stmt: Some(Rows { has_result: true, num_rows: 1, num_cols: 1 }),
        same_thread: false,
        row_idx: 0,
        col_idx: 0,
    });
    assert_eq!(rust_my_sqlite3_value_type(&other, Some(SQLITE_TEXT)), Answer::Value(SQLITE_NULL));
    assert_eq!(rust_my_sqlite3_value_int(&other, 5), Answer::Value(0));
    assert_eq!(rust_my_sqlite3_value_text(&other, 1, 3), Handed::Nothing);
}

#[test]
fn values_are_read_from_their_cells() {
    let h = cell(0, 0);
    assert_eq!(rust_my_sqlite3_value_type(&h, Some(SQLITE_TEXT)), Answer::Value(SQLITE_TEXT));
    assert_eq!(rust_my_sqlite3_value_type(&h, None), Answer::Value(SQLITE_NULL));
    assert_eq!(rust_my_sqlite3_value_type(&ValueHandle::Local, None), Answer::AskLocal(SQLITE_NULL));
    assert_eq!(rust_my_sqlite3_value_int(&h, 5), Answer::Value(5));
    assert_eq!(rust_my_sqlite3_value_int64(&h, 5), Some(5));
    assert_eq!(rust_my_sqlite3_value_int64(&ValueHandle::Null, 5), Some(0));
    assert_eq!(rust_my_sqlite3_value_int64(&ValueHandle::Local, 5), None);
    assert_eq!(rust_my_sqlite3_value_bytes(&h, -1), Answer::Value(0));
    assert_eq!(rust_my_sqlite3_value_bytes(&h, 4), Answer::Value(4));
    assert_eq!(rust_my_sqlite3_value_text(&h, 9, 0), Handed::Slot(9));
    assert_eq!(rust_my_sqlite3_value_text(&h, 9, -1), Handed::Nothing);
    assert_eq!(rust_my_sqlite3_value_blob(&h, 9, 0), Handed::Nothing);
    assert_eq!(rust_my_sqlite3_value_blob(&h, 9, 1), Handed::Slot(9));
    assert_eq!(rust_my_sqlite3_value_blob(&ValueHandle::Local, 9, 1), Handed::AskLocal);
}

#[test]
fn places_in_a_ring_come_round() {
    let mut ring = Ring::new();
    for i in 0..600 {
        assert_eq!(ring.take_text(), i % 256);
    }
    let mut blobs = Ring { next: usize::MAX };
    assert_eq!(blobs.take_blob(), 63);
    assert_eq!(blobs.take_blob(), 0);
}
