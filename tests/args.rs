use sqlite_etl::args::{
    parse_attributes, parse_changes, parse_column_map, parse_pairs, parse_row, parse_table_specs,
    split_fields,
};

fn strings(v: &[&str]) -> Vec<String> {
    v.iter().map(|s| s.to_string()).collect()
}

#[test]
fn split_keeps_empty_pieces() {
    assert_eq!(split_fields("a,,b", ','), strings(&["a", "", "b"]));
    assert_eq!(split_fields("", ','), strings(&[""]));
    assert_eq!(split_fields("é;x", ';'), strings(&["é", "x"]));
}

#[test]
fn row_is_split_at_commas() {
    assert_eq!(parse_row("100000,Lancaster,UFO"), strings(&["100000", "Lancaster", "UFO"]));
}

#[test]
fn pairs_need_exactly_one_separator() {
    let p = parse_pairs("a=1;b=2", ';', '=').unwrap();
    assert_eq!(p, vec![("a".to_string(), "1".to_string()), ("b".to_string(), "2".to_string())]);
    assert!(parse_pairs("a=1;b", ';', '=').is_none());
    assert!(parse_pairs("a=1=2", ';', '=').is_none());
}

#[test]
fn changes_are_col_value_pairs() {
    let c = parse_changes("geo_place_name=Duke").unwrap();
    assert_eq!(c, vec![("geo_place_name".to_string(), "Duke".to_string())]);
}

#[test]
fn load_configuration_forms() {
    let t = parse_table_specs("indicator:indicator_id|indicator_name;geo:geo_id").unwrap();
    assert_eq!(t.len(), 2);
    assert_eq!(t[0].name, "indicator");
    assert_eq!(t[0].columns, strings(&["indicator_id", "indicator_name"]));
    assert_eq!(t[1].columns, strings(&["geo_id"]));
    let a = parse_attributes("geo_id=INTEGER PRIMARY KEY;name=TEXT").unwrap();
    assert_eq!(a[0].column, "geo_id");
    assert_eq!(a[0].attribute, "INTEGER PRIMARY KEY");
    let m = parse_column_map("geo_id=6;name=+2").unwrap();
    assert_eq!(m[0].index, 6);
    assert_eq!(m[1].index, 2);
    assert!(parse_column_map("geo_id=-1").is_none());
    assert!(parse_column_map("geo_id=six").is_none());
    assert!(parse_column_map("geo_id").is_none());
}
