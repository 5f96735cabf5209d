use schemamama_postgres::schema::SchemaModel;
use schemamama_postgres::sql::check_table_name;
use schemamama_postgres::sql::create_table_stmt;
use schemamama_postgres::sql::delete_stmt;
use schemamama_postgres::sql::insert_stmt;
use schemamama_postgres::sql::select_all_stmt;
use schemamama_postgres::sql::select_max_stmt;
use schemamama_postgres::store::StoreError;
use schemamama_postgres::VersionStore;

#[test]
fn empty_state_has_no_current_version() {
    let store = VersionStore::new();
    assert_eq!(store.current(), None);
    assert_eq!(store.count(), 0);
    assert!(store.versions().is_empty());
}

#[test]
fn current_version_is_the_maximum_not_the_latest_insert() {
    let mut store = VersionStore::new();
    store.record(10).unwrap();
    store.record(20).unwrap();
    store.record(5).unwrap();
    assert_eq!(store.current(), Some(20));
}

#[test]
fn round_trip_restores_the_previous_state() {
    let mut store = VersionStore::new();
    store.record(10).unwrap();
    let before = store.current();
    store.record(20).unwrap();
    assert_eq!(store.current(), Some(20));
    assert!(store.erase(20));
    assert_eq!(store.current(), before);
    assert!(!store.contains(20));
}

#[test]
fn reverting_an_unapplied_version_changes_nothing() {
    let mut store = VersionStore::new();
    store.record(10).unwrap();
    assert!(!store.erase(42));
    assert_eq!(store.count(), 1);
    assert!(store.contains(10));
    assert_eq!(store.current(), Some(10));
}

#[test]
fn duplicate_apply_fails_and_leaves_the_state_alone() {
    let mut store = VersionStore::new();
    store.record(10).unwrap();
    assert_eq!(store.record(10), Err(StoreError::DuplicateVersion));
    assert_eq!(store.count(), 1);
    assert_eq!(store.current(), Some(10));
}

#[test]
fn from_rows_deduplicates_and_keeps_every_version() {
    let store = VersionStore::from_rows(&vec![10, 20, 5, 20]);
    assert_eq!(store.count(), 3);
    assert!(store.contains(5));
    assert!(store.contains(10));
    assert!(store.contains(20));
    assert_eq!(store.current(), Some(20));
}

#[test]
fn setup_is_idempotent_and_keeps_the_history() {
    let mut schema = SchemaModel::new();
    let table = String::from("schemamama");
    schema.setup_table(&table);
    schema.record_version(&table, 7).unwrap();
    schema.setup_table(&table);
    assert_eq!(schema.current_version_in(&table), Ok(Some(7)));
}

#[test]
fn a_fresh_table_records_nothing() {
    let mut schema = SchemaModel::new();
    let table = String::from("schemamama");
    schema.setup_table(&table);
    assert_eq!(schema.current_version_in(&table), Ok(None));
    assert_eq!(schema.versions_in(&table), Ok(vec![]));
}

#[test]
fn operations_without_a_table_surface_a_storage_failure() {
    let mut schema = SchemaModel::new();
    let table = String::from("schemamama");
    assert_eq!(schema.record_version(&table, 1), Err(StoreError::MissingTable));
    assert_eq!(schema.erase_version(&table, 1), Err(StoreError::MissingTable));
    assert_eq!(schema.current_version_in(&table), Err(StoreError::MissingTable));
    assert_eq!(schema.versions_in(&table), Err(StoreError::MissingTable));
}

#[test]
fn distinct_table_names_keep_independent_histories() {
    let mut schema = SchemaModel::new();
    let first = String::from("schemamama");
    let second = String::from("__custom__");
    schema.setup_table(&first);
    schema.setup_table(&second);
    schema.record_version(&first, 10).unwrap();
    schema.record_version(&second, 20).unwrap();
    assert_eq!(schema.current_version_in(&first), Ok(Some(10)));
    assert_eq!(schema.current_version_in(&second), Ok(Some(20)));
    assert_eq!(schema.erase_version(&first, 10), Ok(true));
    assert_eq!(schema.current_version_in(&first), Ok(None));
    assert_eq!(schema.current_version_in(&second), Ok(Some(20)));
}

#[test]
fn erasing_twice_reports_nothing_left_to_erase() {
    let mut schema = SchemaModel::new();
    let table = String::from("meta");
    schema.setup_table(&table);
    schema.record_version(&table, 3).unwrap();
    assert_eq!(schema.erase_version(&table, 3), Ok(true));
    assert_eq!(schema.erase_version(&table, 3), Ok(false));
}

#[test]
fn statements_interpolate_the_table_name() {
    assert_eq!(
        create_table_stmt("schemamama").as_str(),
        "CREATE TABLE IF NOT EXISTS schemamama (version BIGINT PRIMARY KEY);"
    );
    assert_eq!(
        select_max_stmt("schemamama").as_str(),
        "SELECT version FROM schemamama ORDER BY version DESC LIMIT 1;"
    );
    assert_eq!(select_all_stmt("schemamama").as_str(), "SELECT version FROM schemamama;");
    assert_eq!(insert_stmt("schemamama").as_str(), "INSERT INTO schemamama (version) VALUES ($1);");
    assert_eq!(delete_stmt("schemamama").as_str(), "DELETE FROM schemamama WHERE version = $1;");
}

#[test]
fn statements_follow_a_custom_table_name() {
    assert_eq!(
        create_table_stmt("__custom__").as_str(),
        "CREATE TABLE IF NOT EXISTS __custom__ (version BIGINT PRIMARY KEY);"
    );
    assert_eq!(delete_stmt("__custom__").as_str(), "DELETE FROM __custom__ WHERE version = $1;");
}

#[test]
fn table_name_validation_accepts_identifiers_only() {
    assert!(check_table_name("schemamama"));
    assert!(check_table_name("__custom__"));
    assert!(check_table_name("migrations_2024"));
    assert!(!check_table_name(""));
    assert!(!check_table_name("2024_migrations"));
    assert!(!check_table_name("bad-name"));
    assert!(!check_table_name("two words"));
    assert!(!check_table_name("name;DROP TABLE users"));
}
