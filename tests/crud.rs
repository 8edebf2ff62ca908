use rusqlite::Connection;
use sqlite_etl::crud::{
    columns_or_empty, delete_data, get_primary_key, get_table_columns, primary_key_of, query_exec,
    read_all_data, read_data, save_data, update_data,
};
use sqlite_etl::error::EtlError;

fn strings(v: &[&str]) -> Vec<String> {
    v.iter().map(|s| s.to_string()).collect()
}

fn fresh_places(db: &str) {
    let conn = Connection::open(db).unwrap();
    conn.execute("DROP TABLE IF EXISTS places", []).unwrap();
    conn.execute("CREATE TABLE places (name TEXT, id INTEGER PRIMARY KEY, kind TEXT)", []).unwrap();
}

fn place_row(db: &str, id: i64) -> Option<(String, String)> {
    let conn = Connection::open(db).unwrap();
    conn.query_row("SELECT name, kind FROM places WHERE id = ?1", [id], |r| Ok((r.get(0)?, r.get(1)?)))
        .ok()
}

#[test]
fn save_then_read_one_gives_first_column() {
    let db = "/tmp/sqlite_etl_crud_save.db";
    fresh_places(db);
    let m = save_data(db, "places", &strings(&["Lancaster", "100000", "UFO"])).ok().unwrap();
    assert_eq!(m, "Save Successful");
    assert_eq!(read_data(db, "places", 100000).ok().unwrap(), Some(strings(&["Lancaster"])));
    assert_eq!(place_row(db, 100000), Some(("Lancaster".to_string(), "UFO".to_string())));
}

#[test]
fn delete_then_read_one_is_empty() {
    let db = "/tmp/sqlite_etl_crud_delete.db";
    fresh_places(db);
    save_data(db, "places", &strings(&["Lancaster", "100000", "UFO"])).ok().unwrap();
    save_data(db, "places", &strings(&["Duke", "100001", "Campus"])).ok().unwrap();
    let m = delete_data(db, "places", 100000).ok().unwrap();
    assert_eq!(m, "Delete Successful");
    assert_eq!(read_data(db, "places", 100000).ok().unwrap(), Some(Vec::new()));
    assert_eq!(read_data(db, "places", 100001).ok().unwrap(), Some(strings(&["Duke"])));
}

#[test]
fn update_changes_only_listed_columns() {
    let db = "/tmp/sqlite_etl_crud_update.db";
    fresh_places(db);
    save_data(db, "places", &strings(&["Lancaster", "100000", "UFO"])).ok().unwrap();
    save_data(db, "places", &strings(&["Durham", "100001", "City"])).ok().unwrap();
    let changes = vec![("name".to_string(), "Duke".to_string())];
    let m = update_data(db, "places", &changes, 100000).ok().unwrap();
    assert_eq!(m, "Update Successful");
    assert_eq!(place_row(db, 100000), Some(("Duke".to_string(), "UFO".to_string())));
    assert_eq!(place_row(db, 100001), Some(("Durham".to_string(), "City".to_string())));
}

#[test]
fn read_all_gives_first_column_of_each_row() {
    let db = "/tmp/sqlite_etl_crud_all.db";
    fresh_places(db);
    save_data(db, "places", &strings(&["A", "1", "x"])).ok().unwrap();
    save_data(db, "places", &strings(&["B", "2", "y"])).ok().unwrap();
    assert_eq!(read_all_data(db, "places").ok().unwrap(), Some(strings(&["A", "B"])));
}

#[test]
fn table_columns_in_order() {
    let db = "/tmp/sqlite_etl_crud_columns.db";
    fresh_places(db);
    assert_eq!(get_table_columns(db, "places").ok().unwrap(), strings(&["name", "id", "kind"]));
    assert_eq!(get_table_columns(db, "no_such_table").ok().unwrap(), Vec::<String>::new());
}

#[test]
fn primary_key_found_or_not() {
    let db = "/tmp/sqlite_etl_crud_pk.db";
    fresh_places(db);
    let conn = Connection::open(db).unwrap();
    conn.execute("DROP TABLE IF EXISTS plain", []).unwrap();
    conn.execute("CREATE TABLE plain (a TEXT)", []).unwrap();
    assert_eq!(get_primary_key(&conn, "places").ok().unwrap(), "id");
    match get_primary_key(&conn, "plain") {
        Err(EtlError::NotFound(t)) => assert_eq!(t, "plain"),
        _ => panic!("expected no primary key"),
    }
    match read_data(db, "plain", 1) {
        Err(EtlError::NotFound(t)) => assert_eq!(t, "plain"),
        _ => panic!("expected no primary key"),
    }
}

#[test]
fn save_into_missing_table_is_a_database_error() {
    let db = "/tmp/sqlite_etl_crud_missing.db";
    fresh_places(db);
    match save_data(db, "missing", &strings(&["a"])) {
        Err(EtlError::Database(m)) => assert!(!m.is_empty()),
        _ => panic!("expected a database error"),
    }
    match read_all_data(db, "missing") {
        Err(e) => assert!(e.message().starts_with("database error: ")),
        _ => panic!("expected a database error"),
    }
}

#[test]
fn query_exec_reads_three_columns() {
    let db = "/tmp/sqlite_etl_crud_query.db";
    let conn = Connection::open(db).unwrap();
    conn.execute("DROP TABLE IF EXISTS users", []).unwrap();
    conn.execute("CREATE TABLE users (id INTEGER, name TEXT, age INTEGER)", []).unwrap();
    conn.execute("INSERT INTO users VALUES (1, 'Ann', 30), (2, 'Bo', 41)", []).unwrap();
    let rows = query_exec(&conn, "SELECT * FROM users ORDER BY id").ok().unwrap();
    assert_eq!(rows, vec![(1, "Ann".to_string(), 30), (2, "Bo".to_string(), 41)]);
}

#[test]
fn error_messages() {
    assert_eq!(EtlError::NotFound("t".to_string()).message(), "no primary key found for table t");
    assert_eq!(EtlError::Config("c".to_string()).message(), "configuration does not describe c");
    assert_eq!(EtlError::Database("boom".to_string()).message(), "database error: boom");
}

#[test]
fn key_and_column_results() {
    assert_eq!(primary_key_of(Some("id".to_string()), "t").ok().unwrap(), "id");
    match primary_key_of(None, "t") {
        Err(EtlError::NotFound(t)) => assert_eq!(t, "t"),
        _ => panic!("expected no primary key"),
    }
    assert_eq!(columns_or_empty(Some(strings(&["a", "b"]))), strings(&["a", "b"]));
    assert_eq!(columns_or_empty(None), Vec::<String>::new());
}

#[test]
fn delete_and_update_without_key_fail() {
    let db = "/tmp/sqlite_etl_crud_nokey.db";
    let conn = Connection::open(db).unwrap();
    conn.execute("DROP TABLE IF EXISTS plain", []).unwrap();
    conn.execute("CREATE TABLE plain (a TEXT)", []).unwrap();
    assert!(matches!(delete_data(db, "plain", 1), Err(EtlError::NotFound(_))));
    let changes = vec![("a".to_string(), "x".to_string())];
    assert!(matches!(update_data(db, "plain", &changes, 1), Err(EtlError::NotFound(_))));
}
