use sqlite_etl::config::{ColumnAttribute, ColumnIndex, TableSpec};
use sqlite_etl::crud::read_all_data;
use sqlite_etl::error::EtlError;
use sqlite_etl::transform::{
    check_config, fact_inserts, lookup_insert, table_definition, transform_n_load, LoadReport,
};

fn spec(name: &str, cols: &[&str]) -> TableSpec {
    TableSpec { name: name.to_string(), columns: cols.iter().map(|c| c.to_string()).collect() }
}

fn index_map(pairs: &[(&str, usize)]) -> Vec<ColumnIndex> {
    pairs.iter().map(|(c, i)| ColumnIndex { column: c.to_string(), index: *i }).collect()
}

fn attr_map(pairs: &[(&str, &str)]) -> Vec<ColumnAttribute> {
    pairs
        .iter()
        .map(|(c, a)| ColumnAttribute { column: c.to_string(), attribute: a.to_string() })
        .collect()
}

fn strings(v: &[&str]) -> Vec<String> {
    v.iter().map(|s| s.to_string()).collect()
}

fn people_load(csv: &str, db: &str) -> Result<LoadReport, EtlError> {
    transform_n_load(
        csv.as_bytes(),
        db,
        &vec![spec("people", &["id", "name"])],
        &vec![spec("people_ids", &["id"])],
        &attr_map(&[("id", "TEXT"), ("name", "TEXT")]),
        &index_map(&[("id", 0), ("name", 1)]),
    )
}

fn table_size(db: &str, table: &str) -> i64 {
    let conn = rusqlite::Connection::open(db).unwrap();
    conn.query_row(&format!("SELECT COUNT(*) FROM {}", table), [], |r| r.get(0)).unwrap()
}

#[test]
fn test_transform_and_load() {
    let csv = "unique_id,indicator_id,name,measure,measure_info,geo_type_name,geo_join_id,geo_place_name,time_period,start_date,data_value\n\
172653,375,Nitrogen dioxide (NO2),Mean,ppb,UHF34,203,Bedford Stuyvesant - Crown Heights,Annual Average 2011,12/01/2010,25.3\n\
172585,375,Nitrogen dioxide (NO2),Mean,ppb,UHF34,203,Bedford Stuyvesant - Crown Heights,Annual Average 2009,12/01/2008,26.93\n\
336637,375,Nitrogen dioxide (NO2),Mean,ppb,UHF34,204,East New York,Annual Average 2015,01/01/2015,19.09\n\
336622,386,Ozone (O3),Mean,ppb,UHF34,103,Fordham - Bronx Pk,Summer 2014,06/01/2014,30.9\n";
    let table_map = vec![spec(
        "air_quality",
        &["air_quality_id", "fn_indicator_id", "fn_geo_id", "time_period", "start_date", "data_value"],
    )];
    let column_map = index_map(&[
        ("air_quality_id", 0),
        ("indicator_id", 1),
        ("indicator_name", 2),
        ("measure", 3),
        ("measure_info", 4),
        ("geo_type_name", 5),
        ("geo_id", 6),
        ("geo_place_name", 7),
        ("time_period", 8),
        ("start_date", 9),
        ("data_value", 10),
        ("fn_geo_id", 6),
        ("fn_indicator_id", 1),
    ]);
    let lookup_map = vec![
        spec("indicator", &["indicator_id", "indicator_name", "measure", "measure_info"]),
        spec("geo_data", &["geo_id", "geo_place_name", "geo_type_name"]),
    ];
    let column_types = attr_map(&[
        ("air_quality_id", "INTEGER PRIMARY KEY"),
        ("indicator_id", "INTEGER PRIMARY KEY"),
        ("indicator_name", "TEXT"),
        ("measure", "TEXT"),
        ("measure_info", "TEXT"),
        ("geo_type_name", "TEXT"),
        ("geo_id", "INTEGER PRIMARY KEY"),
        ("geo_place_name", "TEXT"),
        ("time_period", "TEXT"),
        ("start_date", "TEXT"),
        ("data_value", "REAL"),
        ("fn_indicator_id", "INTEGER"),
        ("fn_geo_id", "INTEGER"),
    ]);
    let db = "/tmp/sqlite_etl_air_quality.db";
    let rep = transform_n_load(csv.as_bytes(), db, &table_map, &lookup_map, &column_types, &column_map)
        .ok()
        .expect("load failed");
    assert_eq!(rep.rows, 4);
    assert_eq!(rep.loaded, 4);
    assert_eq!(rep.lookup_rows, vec![2, 3]);
    assert_eq!(
        rep.lookup_checks,
        vec![
            vec![(375, 0), (375, 1), (375, 1), (386, 0)],
            vec![(203, 0), (203, 1), (204, 0), (103, 0)],
        ]
    );
    assert_eq!(table_size(db, "indicator"), 2);
    assert_eq!(table_size(db, "geo_data"), 3);
    assert_eq!(table_size(db, "air_quality"), 4);
    // integer first columns do not read as text
    assert!(read_all_data(db, "indicator").ok().unwrap().is_none());
}

#[test]
fn scenario_bad_line_is_skipped() {
    let db = "/tmp/sqlite_etl_scenario.db";
    let rep = people_load("id,name\n1,Alice\n2,Bob\nBAD\n3,Carol\n", db).ok().expect("load failed");
    assert_eq!(rep.rows, 4);
    assert_eq!(rep.malformed, 1);
    assert_eq!(rep.skipped, 0);
    assert_eq!(rep.loaded, 3);
    assert_eq!(rep.lookup_rows, vec![3]);
    assert_eq!(rep.lookup_checks, vec![vec![(1, 0), (2, 0), (3, 0)]]);
    assert_eq!(
        rep.inserts,
        strings(&[
            "INSERT INTO people_ids (id) VALUES ('1')",
            "INSERT INTO people (id, name) VALUES ('1', 'Alice')",
            "INSERT INTO people_ids (id) VALUES ('2')",
            "INSERT INTO people (id, name) VALUES ('2', 'Bob')",
            "INSERT INTO people_ids (id) VALUES ('3')",
            "INSERT INTO people (id, name) VALUES ('3', 'Carol')",
        ])
    );
    assert_eq!(read_all_data(db, "people_ids").ok().unwrap().unwrap(), strings(&["1", "2", "3"]));
    assert_eq!(read_all_data(db, "people").ok().unwrap().unwrap(), strings(&["1", "2", "3"]));
}

#[test]
fn non_integer_keys_keep_rows_out_of_fact_tables() {
    let db = "/tmp/sqlite_etl_non_integer.db";
    let rep = people_load("id,name\n1,Alice\nx1,Bob\n2,Carol\n2.5,Dan\n+7,Eve\n", db)
        .ok()
        .expect("load failed");
    assert_eq!(rep.rows, 5);
    assert_eq!(rep.skipped, 2);
    assert_eq!(rep.loaded, 3);
    assert_eq!(rep.loaded, rep.rows - rep.malformed - rep.skipped);
    assert_eq!(rep.lookup_rows, vec![3]);
    assert_eq!(rep.lookup_checks, vec![vec![(1, 0), (2, 0), (7, 0)]]);
    assert_eq!(read_all_data(db, "people").ok().unwrap().unwrap(), strings(&["1", "2", "+7"]));
    assert_eq!(read_all_data(db, "people_ids").ok().unwrap().unwrap(), strings(&["1", "2", "+7"]));
}

#[test]
fn repeated_key_gives_one_lookup_row() {
    let db = "/tmp/sqlite_etl_dedup.db";
    let rep = people_load("id,name\n5,Alice\n5,Bob\n6,Carol\n5,Dan\n", db).ok().expect("load failed");
    assert_eq!(rep.loaded, 4);
    assert_eq!(rep.lookup_rows, vec![2]);
    assert_eq!(rep.lookup_checks, vec![vec![(5, 0), (5, 1), (6, 0), (5, 1)]]);
    assert_eq!(
        rep.inserts,
        strings(&[
            "INSERT INTO people_ids (id) VALUES ('5')",
            "INSERT INTO people (id, name) VALUES ('5', 'Alice')",
            "INSERT INTO people (id, name) VALUES ('5', 'Bob')",
            "INSERT INTO people_ids (id) VALUES ('6')",
            "INSERT INTO people (id, name) VALUES ('6', 'Carol')",
            "INSERT INTO people (id, name) VALUES ('5', 'Dan')",
        ])
    );
    assert_eq!(read_all_data(db, "people_ids").ok().unwrap().unwrap(), strings(&["5", "6"]));
    assert_eq!(read_all_data(db, "people").ok().unwrap().unwrap().len(), 4);
}

#[test]
fn malformed_row_does_not_stop_the_load() {
    let db = "/tmp/sqlite_etl_malformed.db";
    let rep = people_load("id,name\n1,Alice\n2,Bob,extra\n3,Carol\n4,Dan\n", db)
        .ok()
        .expect("load failed");
    assert_eq!(rep.malformed, 1);
    assert_eq!(rep.loaded, 3);
    assert_eq!(read_all_data(db, "people").ok().unwrap().unwrap(), strings(&["1", "3", "4"]));
}

#[test]
fn header_only_loads_nothing() {
    let db = "/tmp/sqlite_etl_header_only.db";
    let rep = people_load("id,name\n", db).ok().expect("load failed");
    assert_eq!(rep.rows, 0);
    assert_eq!(rep.loaded, 0);
    assert_eq!(rep.lookup_rows, vec![0]);
    assert_eq!(rep.lookup_checks, vec![Vec::<(i32, i32)>::new()]);
    assert_eq!(read_all_data(db, "people").ok().unwrap().unwrap(), Vec::<String>::new());
}

#[test]
fn short_record_reads_missing_fields_as_empty() {
    let db = "/tmp/sqlite_etl_short.db";
    let rep = transform_n_load(
        "id,name\n1,Alice\n".as_bytes(),
        db,
        &vec![spec("people", &["name", "id"])],
        &vec![],
        &attr_map(&[("id", "INTEGER"), ("name", "TEXT"), ("city", "TEXT")]),
        &index_map(&[("id", 0), ("name", 1)]),
    );
    assert!(rep.is_ok());
    assert_eq!(read_all_data(db, "people").ok().unwrap().unwrap(), strings(&["Alice"]));
}

#[test]
fn missing_column_index_is_a_config_error() {
    let r = transform_n_load(
        "id,name\n1,Alice\n".as_bytes(),
        "/tmp/sqlite_etl_config.db",
        &vec![spec("people", &["id", "name"])],
        &vec![],
        &attr_map(&[("id", "INTEGER"), ("name", "TEXT")]),
        &index_map(&[("id", 0)]),
    );
    match r {
        Err(EtlError::Config(c)) => assert_eq!(c, "name"),
        _ => panic!("expected a configuration error"),
    }
}

#[test]
fn check_config_cases() {
    let attrs = attr_map(&[("id", "INTEGER"), ("name", "TEXT")]);
    let map = index_map(&[("id", 0), ("name", 1)]);
    assert!(check_config(&vec![spec("t", &["id", "name"])], &vec![spec("l", &["id"])], &attrs, &map).is_ok());
    match check_config(&vec![], &vec![spec("l", &[])], &attrs, &map) {
        Err(EtlError::Config(c)) => assert_eq!(c, "l"),
        _ => panic!("expected a configuration error"),
    }
    match check_config(&vec![spec("t", &["id", "age"])], &vec![], &attrs, &map) {
        Err(EtlError::Config(c)) => assert_eq!(c, "age"),
        _ => panic!("expected a configuration error"),
    }
    let twice = index_map(&[("id", 0), ("name", 1), ("id", 2)]);
    match check_config(&vec![], &vec![], &attrs, &twice) {
        Err(EtlError::Config(c)) => assert_eq!(c, "id"),
        _ => panic!("expected a configuration error"),
    }
    let twice_attr = attr_map(&[("name", "TEXT"), ("name", "INTEGER")]);
    match check_config(&vec![], &vec![], &twice_attr, &map) {
        Err(EtlError::Config(c)) => assert_eq!(c, "name"),
        _ => panic!("expected a configuration error"),
    }
}

#[test]
fn table_definition_pairs_columns_with_attributes() {
    let attrs = attr_map(&[("id", "INTEGER PRIMARY KEY"), ("name", "TEXT")]);
    let defs = table_definition(&strings(&["id", "name"]), &attrs).ok().unwrap();
    assert_eq!(defs, strings(&["id INTEGER PRIMARY KEY", "name TEXT"]));
    match table_definition(&strings(&["id", "x"]), &attrs) {
        Err(EtlError::Config(c)) => assert_eq!(c, "x"),
        _ => panic!("expected a configuration error"),
    }
}

#[test]
fn later_lookups_are_not_checked_after_a_bad_key() {
    let db = "/tmp/sqlite_etl_two_lookups.db";
    let rep = transform_n_load(
        "a,b\nx,1\n2,3\n".as_bytes(),
        db,
        &vec![spec("facts", &["a", "b"])],
        &vec![spec("la", &["a"]), spec("lb", &["b"])],
        &attr_map(&[("a", "TEXT"), ("b", "TEXT")]),
        &index_map(&[("a", 0), ("b", 1)]),
    )
    .ok()
    .expect("load failed");
    assert_eq!(rep.skipped, 1);
    assert_eq!(rep.loaded, 1);
    assert_eq!(rep.lookup_checks, vec![vec![(2, 0)], vec![(3, 0)]]);
    assert_eq!(
        rep.inserts,
        strings(&[
            "INSERT INTO la (a) VALUES ('2')",
            "INSERT INTO lb (b) VALUES ('3')",
            "INSERT INTO facts (a, b) VALUES ('2', '3')",
        ])
    );
    assert_eq!(rep.lookup_rows, vec![1, 1]);
}

#[test]
fn database_error_stops_the_load() {
    let r = transform_n_load(
        "id,name\n1,Alice\n".as_bytes(),
        "/tmp/sqlite_etl_bad_attr.db",
        &vec![spec("people", &["id", "name"])],
        &vec![],
        &attr_map(&[("id", "NOT A TYPE ((("), ("name", "TEXT")]),
        &index_map(&[("id", 0), ("name", 1)]),
    );
    assert!(matches!(r, Err(EtlError::Database(_))));
}

#[test]
fn insert_helpers_follow_the_count() {
    let rec = strings(&["7", "Zed"]);
    let map = index_map(&[("id", 0), ("name", 1), ("city", 5)]);
    let t = spec("ids", &["id", "city"]);
    assert_eq!(lookup_insert(&rec, &t, &map, 0), Some("INSERT INTO ids (id, city) VALUES ('7', '')".to_string()));
    assert_eq!(lookup_insert(&rec, &t, &map, 1), None);
    let facts = vec![spec("a", &["name"]), spec("b", &["id", "name"])];
    assert_eq!(
        fact_inserts(&rec, &facts, &map),
        strings(&["INSERT INTO a (name) VALUES ('Zed')", "INSERT INTO b (id, name) VALUES ('7', 'Zed')"])
    );
}

#[test]
fn empty_configuration_loads_nothing() {
    let rep = transform_n_load("a\n1\n".as_bytes(), "/tmp/sqlite_etl_empty_config.db", &vec![], &vec![], &vec![], &vec![])
        .ok()
        .expect("load failed");
    assert_eq!(rep.rows, 1);
    assert_eq!(rep.loaded, 1);
    assert!(rep.inserts.is_empty());
}
