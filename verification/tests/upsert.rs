use plex_pg_core::upsert::transform;
use sqlparser::dialect::{GenericDialect, SQLiteDialect};
use sqlparser::parser::Parser;

fn rewritten(sql: &str) -> String {
    let mut stmts = Parser::parse_sql(&SQLiteDialect {}, sql)
        .or_else(|_| Parser::parse_sql(&GenericDialect {}, sql))
        .expect("one statement");
    assert_eq!(stmts.len(), 1);
    transform(&mut stmts[0]);
    stmts[0].to_string()
}

#[test]
fn upsert_insert_or_replace() {
    let sql = rewritten("INSERT OR REPLACE INTO settings(id, value) VALUES(?, ?)");
    assert!(sql.to_uppercase().contains("ON CONFLICT"));
    assert!(sql.to_uppercase().contains("DO UPDATE"));
    assert!(!sql.to_uppercase().contains("OR REPLACE"));
}

#[test]
fn upsert_insert_or_ignore() {
    let sql = rewritten("INSERT OR IGNORE INTO tags(tag) VALUES(?)");
    assert!(sql.to_uppercase().contains("ON CONFLICT"));
    assert!(sql.to_uppercase().contains("DO NOTHING"));
    assert!(!sql.to_uppercase().contains("OR IGNORE"));
}

#[test]
fn upsert_replace_into() {
    let sql = rewritten("REPLACE INTO settings(id, value) VALUES(?, ?)");
    assert!(sql.to_uppercase().contains("ON CONFLICT"));
    assert!(sql.to_uppercase().contains("DO UPDATE"));
    assert!(!sql.to_uppercase().contains("REPLACE INTO"));
}

#[test]
fn upsert_normal_insert_unchanged() {
    let sql = rewritten("INSERT INTO t (a, b) VALUES (1, 2)");
    assert!(!sql.to_uppercase().contains("ON CONFLICT"));
}

#[test]
fn upsert_on_conflict_already_present_unchanged() {
    let sql = rewritten(
        "INSERT INTO settings(id, value) VALUES(?, ?) ON CONFLICT(id) DO UPDATE SET value = excluded.value",
    );
    assert!(sql.to_uppercase().contains("ON CONFLICT"));
    let count = sql.to_uppercase().matches("ON CONFLICT").count();
    assert_eq!(count, 1, "ON CONFLICT should appear exactly once");
}

#[test]
fn upsert_sets_each_column_but_the_target() {
    let sql = rewritten(
        "INSERT OR REPLACE INTO metadata_item_settings(id, account_id, guid, rating, view_count) VALUES(1, 2, 'g', 3, 4)",
    );
    assert_eq!(
        sql,
        "INSERT INTO metadata_item_settings (id, account_id, guid, rating, view_count) VALUES (1, 2, 'g', 3, 4) ON CONFLICT(account_id, guid) DO UPDATE SET rating = EXCLUDED.rating, view_count = EXCLUDED.view_count RETURNING id"
    );
}

#[test]
fn upsert_of_an_unknown_table_does_nothing_twice() {
    let once = rewritten("INSERT OR REPLACE INTO somewhere(a, b) VALUES(1, 2)");
    assert!(!once.to_uppercase().contains("OR REPLACE"));
    assert_eq!(rewritten(&once), once);
}
