//! The load: create the tables, then for each CSV record after the header
//! fill the lookup tables (deduplicated by their key) and the fact tables.

use crate::config::{
    attribute_column_names, attribute_columns, attribute_of, find_attribute, find_index,
    first_repeat, index_column_names, index_columns, index_of, ColumnAttribute, ColumnIndex,
    TableSpec,
};
use crate::db::{database_error, execute, first_int, open_db};
use crate::error::EtlError;
use crate::records::{csv_records, i32_of_text, parse_i32, read_csv, records_view};
use crate::sql::{
    column_def, count_sql, create_table_sql, drop_table_sql, row_insert_sql, row_insert_text,
    texts,
};
use rusqlite::Connection;
use vstd::prelude::*;

verus! {

/// A record as a list of field texts, or `None` where it could not be read.
pub type RecordView = Option<Seq<Seq<char>>>;

/// The field at `i`, or empty where the record is shorter.
pub open spec fn field_at(rec: Seq<Seq<char>>, i: usize) -> Seq<char> {
    if i < rec.len() {
        rec[i as int]
    } else {
        Seq::empty()
    }
}

/// The value of column `col` in `rec`, through the column map.
pub open spec fn column_value(rec: Seq<Seq<char>>, map: Seq<ColumnIndex>, col: Seq<char>) -> Seq<
    char,
> {
    field_at(rec, index_of(map, col).unwrap())
}

/// The values of `cols` in `rec`, in order.
pub open spec fn row_values(rec: Seq<Seq<char>>, map: Seq<ColumnIndex>, cols: Seq<Seq<char>>) -> Seq<
    Seq<char>,
> {
    cols.map_values(|c: Seq<char>| column_value(rec, map, c))
}

pub open spec fn all_mapped(map: Seq<ColumnIndex>, cols: Seq<String>) -> bool {
    forall|i: int| 0 <= i < cols.len() ==> (#[trigger] index_of(map, cols[i]@)) is Some
}

pub open spec fn all_attributed(attrs: Seq<ColumnAttribute>, cols: Seq<String>) -> bool {
    forall|i: int| 0 <= i < cols.len() ==> (#[trigger] attribute_of(attrs, cols[i]@)) is Some
}

pub open spec fn table_described(
    t: TableSpec,
    attrs: Seq<ColumnAttribute>,
    map: Seq<ColumnIndex>,
) -> bool {
    all_mapped(map, t.columns@) && all_attributed(attrs, t.columns@)
}

/// No column has two positions or two attribute entries, every column of
/// every table has a position and attributes, and every lookup table has a
/// key column.
pub open spec fn config_ok(
    facts: Seq<TableSpec>,
    lookups: Seq<TableSpec>,
    attrs: Seq<ColumnAttribute>,
    map: Seq<ColumnIndex>,
) -> bool {
    &&& index_columns(map).no_duplicates()
    &&& attribute_columns(attrs).no_duplicates()
    &&& forall|j: int| 0 <= j < facts.len() ==> table_described(#[trigger] facts[j], attrs, map)
    &&& forall|j: int|
        0 <= j < lookups.len() ==> table_described(#[trigger] lookups[j], attrs, map)
            && lookups[j].columns.len() > 0
}

/// The text of lookup table `t`'s dedup key in `rec`.
pub open spec fn key_text(rec: Seq<Seq<char>>, map: Seq<ColumnIndex>, t: TableSpec) -> Seq<char> {
    column_value(rec, map, t.columns@[0]@)
}

/// Whether that key reads as a base-10 `i32`.
pub open spec fn key_ok(rec: Seq<Seq<char>>, map: Seq<ColumnIndex>, t: TableSpec) -> bool {
    i32_of_text(key_text(rec, map, t)) is Some
}

/// Whether the check of lookup table `j` runs for `rec`: every key before
/// it read as an integer.
pub open spec fn lookup_reached(
    rec: Seq<Seq<char>>,
    map: Seq<ColumnIndex>,
    lookups: Seq<TableSpec>,
    j: int,
) -> bool {
    forall|k: int| 0 <= k < j ==> key_ok(rec, map, #[trigger] lookups[k])
}

/// Whether `rec` may add a row to lookup table `j`: the check runs and the
/// key reads as an integer.
pub open spec fn lookup_keyed(
    rec: Seq<Seq<char>>,
    map: Seq<ColumnIndex>,
    lookups: Seq<TableSpec>,
    j: int,
) -> bool {
    lookup_reached(rec, map, lookups, j) && key_ok(rec, map, lookups[j])
}

/// Whether `rec` goes into the fact tables: all its lookup keys are integers.
pub open spec fn row_loadable(rec: Seq<Seq<char>>, map: Seq<ColumnIndex>, lookups: Seq<TableSpec>) -> bool {
    lookup_reached(rec, map, lookups, lookups.len() as int)
}

/// The records after the header (the first record, whatever it holds).
pub open spec fn data_rows(recs: Seq<RecordView>) -> Seq<RecordView> {
    recs.subrange(
        if recs.len() > 0 {
            1
        } else {
            0
        },
        recs.len() as int,
    )
}

/// How many of `rows` satisfy `p`.
pub open spec fn count_rows(rows: Seq<RecordView>, p: spec_fn(RecordView) -> bool) -> nat
    decreases rows.len(),
{
    if rows.len() == 0 {
        0
    } else {
        count_rows(rows.drop_last(), p) + if p(rows.last()) {
            1nat
        } else {
            0nat
        }
    }
}

pub open spec fn malformed_rows(rows: Seq<RecordView>) -> nat {
    count_rows(rows, |r: RecordView| r is None)
}

pub open spec fn loaded_rows(rows: Seq<RecordView>, map: Seq<ColumnIndex>, lookups: Seq<TableSpec>) -> nat {
    count_rows(rows, |r: RecordView| r matches Some(f) && row_loadable(f, map, lookups))
}

pub open spec fn skipped_rows(rows: Seq<RecordView>, map: Seq<ColumnIndex>, lookups: Seq<TableSpec>) -> nat {
    count_rows(rows, |r: RecordView| r matches Some(f) && !row_loadable(f, map, lookups))
}

/// The integer value of lookup table `t`'s key in `rec` (where it reads as one).
pub open spec fn key_value(rec: Seq<Seq<char>>, map: Seq<ColumnIndex>, t: TableSpec) -> i32 {
    i32_of_text(key_text(rec, map, t)).unwrap()
}

/// The keys that `rows` bring to lookup table `j`, in order: one for each
/// read record whose check of that table runs.
pub open spec fn keys_of(
    rows: Seq<RecordView>,
    map: Seq<ColumnIndex>,
    lookups: Seq<TableSpec>,
    j: int,
) -> Seq<i32>
    decreases rows.len(),
{
    if rows.len() == 0 {
        Seq::empty()
    } else {
        let prev = keys_of(rows.drop_last(), map, lookups, j);
        match rows.last() {
            Some(f) => if lookup_keyed(f, map, lookups, j) {
                prev.push(key_value(f, map, lookups[j]))
            } else {
                prev
            },
            None => prev,
        }
    }
}

/// The keys of a list of checks `(key, count the store reported)`.
pub open spec fn check_keys(checks: Seq<(i32, i32)>) -> Seq<i32> {
    checks.map_values(|c: (i32, i32)| c.0)
}

/// The keys of the checks that found no row, in order: those inserted.
pub open spec fn inserted_by(checks: Seq<(i32, i32)>) -> Seq<i32>
    decreases checks.len(),
{
    if checks.len() == 0 {
        Seq::empty()
    } else {
        let prev = inserted_by(checks.drop_last());
        if checks.last().1 == 0 {
            prev.push(checks.last().0)
        } else {
            prev
        }
    }
}

/// What a load reports.
pub struct LoadReport {
    /// Records after the header.
    pub rows: usize,
    /// Records that could not be read; skipped.
    pub malformed: usize,
    /// Read records with a lookup key that is not an integer; in no fact table.
    pub skipped: usize,
    /// Read records whose lookup keys are all integers; each was inserted
    /// into every fact table.
    pub loaded: usize,
    /// For each lookup table in order, each key checked, with the number of
    /// rows that the store reported under it.
    pub lookup_checks: Vec<Vec<(i32, i32)>>,
    /// For each lookup table in order, the rows inserted into it: one for
    /// each check that found none.
    pub lookup_rows: Vec<usize>,
    /// Every INSERT that the store took, in the order sent.
    pub inserts: Vec<String>,
}

/// What the report of a successful load over `rows` (the records after the
/// header) says.
pub open spec fn report_of(
    rep: LoadReport,
    rows: Seq<RecordView>,
    map: Seq<ColumnIndex>,
    facts: Seq<TableSpec>,
    lookups: Seq<TableSpec>,
) -> bool {
    &&& texts(rep.inserts@) == load_texts(rows, map, facts, lookups, checks_view(rep.lookup_checks@))
    &&& rep.rows == rows.len()
    &&& rep.malformed == malformed_rows(rows)
    &&& rep.skipped == skipped_rows(rows, map, lookups)
    &&& rep.loaded == loaded_rows(rows, map, lookups)
    &&& rep.lookup_checks@.len() == lookups.len()
    &&& rep.lookup_rows@.len() == lookups.len()
    &&& forall|j: int|
        0 <= j < lookups.len() ==> check_keys(#[trigger] rep.lookup_checks@[j]@) == keys_of(
            rows,
            map,
            lookups,
            j,
        ) && rep.lookup_rows@[j] == inserted_by(rep.lookup_checks@[j]@).len()
}

/// The value of `col` in `rec`: the field at the column's position, empty
/// where the record is shorter.
pub fn column_value_of(rec: &Vec<String>, map: &Vec<ColumnIndex>, col: &String) -> (r: String)
    requires
        index_of(map@, col@) is Some,
    ensures
        r@ == column_value(texts(rec@), map@, col@),
{
    let i = find_index(map, col).unwrap();
    if i < rec.len() {
        rec[i].clone()
    } else {
        String::new()
    }
}

/// The values of `cols` in `rec`, in order.
pub fn row_values_of(rec: &Vec<String>, map: &Vec<ColumnIndex>, cols: &Vec<String>) -> (r: Vec<String>)
    requires
        all_mapped(map@, cols@),
    ensures
        texts(r@) == row_values(texts(rec@), map@, texts(cols@)),
{
    let mut r: Vec<String> = Vec::new();
    let mut i: usize = 0;
    while i < cols.len()
        invariant
            0 <= i <= cols.len(),
            all_mapped(map@, cols@),
            texts(r@) =~= row_values(texts(rec@), map@, texts(cols@).take(i as int)),
        decreases cols.len() - i,
    {
        assert(index_of(map@, cols@[i as int]@) is Some);
        let v = column_value_of(rec, map, &cols[i]);
        let ghost prev = r@;
        r.push(v);
        assert(texts(r@) =~= texts(prev).push(v@));
        assert(texts(cols@).take(i + 1) =~= texts(cols@).take(i as int).push(cols@[i as int]@));
        i += 1;
    }
    assert(texts(cols@).take(cols.len() as int) =~= texts(cols@));
    r
}

/// The column definitions of CREATE TABLE: each column with its attributes.
pub open spec fn column_defs(cols: Seq<String>, attrs: Seq<ColumnAttribute>) -> Seq<Seq<char>> {
    cols.map_values(|c: String| column_def(c@, attribute_of(attrs, c@).unwrap()))
}

/// Writes each column as `col ATTRIBUTES`; fails with the first column that
/// has no attributes.
pub fn table_definition(columns: &Vec<String>, column_attributes: &Vec<ColumnAttribute>) -> (r:
    Result<Vec<String>, EtlError>)
    ensures
        r is Ok <==> all_attributed(column_attributes@, columns@),
        r matches Ok(defs) ==> texts(defs@) == column_defs(columns@, column_attributes@),
        r matches Err(e) ==> e is Config,
{
    let mut defs: Vec<String> = Vec::new();
    let mut i: usize = 0;
    while i < columns.len()
        invariant
            0 <= i <= columns.len(),
            all_attributed(column_attributes@, columns@.take(i as int)),
            texts(defs@) =~= column_defs(columns@.take(i as int), column_attributes@),
        decreases columns.len() - i,
    {
        match find_attribute(column_attributes, &columns[i]) {
            Some(a) => {
                let mut d = columns[i].clone();
                d.append(" ");
                d.append(a.as_str());
                let ghost prev = defs@;
                defs.push(d);
                assert(texts(defs@) =~= texts(prev).push(d@));
                assert(columns@.take(i + 1) =~= columns@.take(i as int).push(columns@[i as int]));
                i += 1;
            },
            None => {
                assert(!all_attributed(column_attributes@, columns@)) by {
                    assert(attribute_of(column_attributes@, columns@[i as int]@) is None);
                }
                return Err(EtlError::Config(columns[i].clone()));
            },
        }
    }
    assert(columns@.take(columns.len() as int) =~= columns@);
    Ok(defs)
}

/// The first column of `cols` without a position or without attributes.
fn undescribed_column(
    cols: &Vec<String>,
    attrs: &Vec<ColumnAttribute>,
    map: &Vec<ColumnIndex>,
) -> (r: Option<String>)
    ensures
        r is None <==> all_mapped(map@, cols@) && all_attributed(attrs@, cols@),
{
    let mut i: usize = 0;
    while i < cols.len()
        invariant
            0 <= i <= cols.len(),
            all_mapped(map@, cols@.take(i as int)),
            all_attributed(attrs@, cols@.take(i as int)),
        decreases cols.len() - i,
    {
        if find_index(map, &cols[i]).is_none() {
            assert(index_of(map@, cols@[i as int]@) is None);
            return Some(cols[i].clone());
        }
        if find_attribute(attrs, &cols[i]).is_none() {
            assert(attribute_of(attrs@, cols@[i as int]@) is None);
            return Some(cols[i].clone());
        }
        assert(cols@.take(i + 1) =~= cols@.take(i as int).push(cols@[i as int]));
        i += 1;
    }
    assert(cols@.take(cols.len() as int) =~= cols@);
    None
}

/// Checks that the configuration describes every column that the table
/// specs name, and that every lookup table has a key column.
pub fn check_config(
    new_data_tables: &Vec<TableSpec>,
    new_lookup_tables: &Vec<TableSpec>,
    column_attributes: &Vec<ColumnAttribute>,
    column_map: &Vec<ColumnIndex>,
) -> (r: Result<(), EtlError>)
    ensures
        r is Ok <==> config_ok(new_data_tables@, new_lookup_tables@, column_attributes@, column_map@),
        r matches Err(e) ==> e is Config,
{
    if let Some(c) = first_repeat(&index_column_names(column_map)) {
        return Err(EtlError::Config(c));
    }
    if let Some(c) = first_repeat(&attribute_column_names(column_attributes)) {
        return Err(EtlError::Config(c));
    }
    let mut j: usize = 0;
    while j < new_data_tables.len()
        invariant
            0 <= j <= new_data_tables.len(),
            forall|k: int|
                0 <= k < j ==> table_described(
                    #[trigger] new_data_tables@[k],
                    column_attributes@,
                    column_map@,
                ),
        decreases new_data_tables.len() - j,
    {
        if let Some(c) = undescribed_column(&new_data_tables[j].columns, column_attributes, column_map) {
            return Err(EtlError::Config(c));
        }
        j += 1;
    }
    let mut j: usize = 0;
    while j < new_lookup_tables.len()
        invariant
            0 <= j <= new_lookup_tables.len(),
            forall|k: int|
                0 <= k < j ==> table_described(
                    #[trigger] new_lookup_tables@[k],
                    column_attributes@,
                    column_map@,
                ) && new_lookup_tables@[k].columns.len() > 0,
        decreases new_lookup_tables.len() - j,
    {
        if new_lookup_tables[j].columns.len() == 0 {
            return Err(EtlError::Config(new_lookup_tables[j].name.clone()));
        }
        if let Some(c) = undescribed_column(&new_lookup_tables[j].columns, column_attributes, column_map) {
            return Err(EtlError::Config(c));
        }
        j += 1;
    }
    Ok(())
}

/// Drops `table` if it exists and creates it with `columns`, each with its
/// attributes. A column without attributes fails the call before any
/// statement is sent.
pub fn create_table(
    conn: &Connection,
    table: &String,
    columns: &Vec<String>,
    column_attributes: &Vec<ColumnAttribute>,
) -> (r: Result<(), EtlError>)
    ensures
        r matches Err(e) ==> (e is Config <==> !all_attributed(column_attributes@, columns@)),
        !all_attributed(column_attributes@, columns@) ==> r is Err,
        r matches Err(e) ==> e is Config || e is Database,
{
    let defs = match table_definition(columns, column_attributes) {
        Ok(d) => d,
        Err(e) => return Err(e),
    };
    let no_ids: Vec<i64> = Vec::new();
    match execute(conn, drop_table_sql(table.as_str()).as_str(), &no_ids) {
        Ok(_) => {},
        Err(e) => return Err(database_error(e)),
    }
    match execute(conn, create_table_sql(table.as_str(), &defs).as_str(), &no_ids) {
        Ok(_) => Ok(()),
        Err(e) => Err(database_error(e)),
    }
}

/// Every column that a row's values are read from has a position, and
/// every lookup table has a key column.
pub open spec fn rows_mapped(facts: Seq<TableSpec>, lookups: Seq<TableSpec>, map: Seq<ColumnIndex>) -> bool {
    &&& forall|j: int| 0 <= j < facts.len() ==> all_mapped(map, (#[trigger] facts[j]).columns@)
    &&& forall|j: int|
        0 <= j < lookups.len() ==> all_mapped(map, (#[trigger] lookups[j]).columns@)
            && lookups[j].columns.len() > 0
}

/// `after` is `before` with one more check, of `key`.
pub open spec fn checked_once(before: Seq<(i32, i32)>, after: Seq<(i32, i32)>, key: i32) -> bool {
    after.len() == before.len() + 1 && after.drop_last() == before && after.last().0 == key
}

/// The INSERT that the load sends to put `rec` into table `t`.
pub open spec fn insert_text_for(rec: Seq<Seq<char>>, map: Seq<ColumnIndex>, t: TableSpec) -> Seq<char> {
    row_insert_text(t.name@, texts(t.columns@), row_values(rec, map, texts(t.columns@)))
}

/// The INSERTs that put `rec` into each fact table, in order.
pub open spec fn fact_texts(rec: Seq<Seq<char>>, map: Seq<ColumnIndex>, facts: Seq<TableSpec>) -> Seq<
    Seq<char>,
> {
    facts.map_values(|t: TableSpec| insert_text_for(rec, map, t))
}

/// The lists of checks, as views.
pub open spec fn checks_view(c: Seq<Vec<(i32, i32)>>) -> Seq<Seq<(i32, i32)>> {
    c.map_values(|v: Vec<(i32, i32)>| v@)
}

/// The lookup INSERTs that `rec` causes among the first `n` lookup tables,
/// in order: one for each table whose check runs for `rec` and found no
/// row. The check that `rec` made of table `j` is the last of `after[j]`.
pub open spec fn lookup_texts(
    rec: Seq<Seq<char>>,
    map: Seq<ColumnIndex>,
    lookups: Seq<TableSpec>,
    after: Seq<Seq<(i32, i32)>>,
    n: int,
) -> Seq<Seq<char>>
    decreases n,
{
    if n <= 0 {
        Seq::empty()
    } else {
        let prev = lookup_texts(rec, map, lookups, after, n - 1);
        if lookup_keyed(rec, map, lookups, n - 1) && after[n - 1].last().1 == 0 {
            prev.push(insert_text_for(rec, map, lookups[n - 1]))
        } else {
            prev
        }
    }
}

/// Every INSERT that loading the read record `rec` sends, in order: its
/// lookup rows, then, where all its keys are integers, its fact rows.
pub open spec fn row_texts(
    rec: Seq<Seq<char>>,
    map: Seq<ColumnIndex>,
    facts: Seq<TableSpec>,
    lookups: Seq<TableSpec>,
    after: Seq<Seq<(i32, i32)>>,
) -> Seq<Seq<char>> {
    lookup_texts(rec, map, lookups, after, lookups.len() as int) + if row_loadable(rec, map, lookups) {
        fact_texts(rec, map, facts)
    } else {
        Seq::empty()
    }
}

/// The checks as they stood before the record `r` was loaded: the check
/// that it made of each table is taken off.
pub open spec fn checks_before(
    after: Seq<Seq<(i32, i32)>>,
    r: RecordView,
    map: Seq<ColumnIndex>,
    lookups: Seq<TableSpec>,
) -> Seq<Seq<(i32, i32)>> {
    match r {
        Some(f) => Seq::new(
            after.len(),
            |j: int|
                if lookup_keyed(f, map, lookups, j) {
                    after[j].drop_last()
                } else {
                    after[j]
                },
        ),
        None => after,
    }
}

/// Every INSERT that a load of `rows` sends, in order, where `after` holds
/// each lookup table's checks at the end.
pub open spec fn load_texts(
    rows: Seq<RecordView>,
    map: Seq<ColumnIndex>,
    facts: Seq<TableSpec>,
    lookups: Seq<TableSpec>,
    after: Seq<Seq<(i32, i32)>>,
) -> Seq<Seq<char>>
    decreases rows.len(),
{
    if rows.len() == 0 {
        Seq::empty()
    } else {
        load_texts(
            rows.drop_last(),
            map,
            facts,
            lookups,
            checks_before(after, rows.last(), map, lookups),
        ) + match rows.last() {
            Some(f) => row_texts(f, map, facts, lookups, after),
            None => Seq::empty(),
        }
    }
}

proof fn lemma_lookup_texts_agree(
    rec: Seq<Seq<char>>,
    map: Seq<ColumnIndex>,
    lookups: Seq<TableSpec>,
    a: Seq<Seq<(i32, i32)>>,
    b: Seq<Seq<(i32, i32)>>,
    n: int,
)
    requires
        forall|k: int| 0 <= k < n ==> a[k] == b[k],
    ensures
        lookup_texts(rec, map, lookups, a, n) == lookup_texts(rec, map, lookups, b, n),
    decreases n,
{
    if n > 0 {
        lemma_lookup_texts_agree(rec, map, lookups, a, b, n - 1);
        assert(a[n - 1] == b[n - 1]);
    }
}

proof fn lemma_lookup_texts_unkeyed(
    rec: Seq<Seq<char>>,
    map: Seq<ColumnIndex>,
    lookups: Seq<TableSpec>,
    a: Seq<Seq<(i32, i32)>>,
    j: int,
    n: int,
)
    requires
        0 <= j <= n,
        forall|k: int| j <= k < n ==> !lookup_keyed(rec, map, lookups, k),
    ensures
        lookup_texts(rec, map, lookups, a, n) == lookup_texts(rec, map, lookups, a, j),
    decreases n,
{
    if n > j {
        lemma_lookup_texts_unkeyed(rec, map, lookups, a, j, n - 1);
    }
}

/// The INSERT of `rec` into lookup table `t`, where the store found `found`
/// rows under its key: one only where it found none.
pub fn lookup_insert(rec: &Vec<String>, t: &TableSpec, map: &Vec<ColumnIndex>, found: i32) -> (r:
    Option<String>)
    requires
        all_mapped(map@, t.columns@),
    ensures
        r is Some <==> found == 0,
        r matches Some(s) ==> s@ == insert_text_for(texts(rec@), map@, *t),
{
    if found == 0 {
        let values = row_values_of(rec, map, &t.columns);
        Some(row_insert_sql(t.name.as_str(), &t.columns, &values))
    } else {
        None
    }
}

/// The INSERTs of `rec` into each fact table, in order.
pub fn fact_inserts(rec: &Vec<String>, facts: &Vec<TableSpec>, map: &Vec<ColumnIndex>) -> (r: Vec<
    String,
>)
    requires
        forall|j: int| 0 <= j < facts@.len() ==> all_mapped(map@, (#[trigger] facts@[j]).columns@),
    ensures
        texts(r@) == fact_texts(texts(rec@), map@, facts@),
{
    let mut r: Vec<String> = Vec::new();
    let mut f: usize = 0;
    while f < facts.len()
        invariant
            0 <= f <= facts.len(),
            forall|j: int| 0 <= j < facts@.len() ==> all_mapped(map@, (#[trigger] facts@[j]).columns@),
            texts(r@) =~= fact_texts(texts(rec@), map@, facts@.take(f as int)),
        decreases facts.len() - f,
    {
        let t = &facts[f];
        assert(all_mapped(map@, facts@[f as int].columns@));
        let values = row_values_of(rec, map, &t.columns);
        let s = row_insert_sql(t.name.as_str(), &t.columns, &values);
        let ghost prev = r@;
        r.push(s);
        assert(texts(r@) =~= texts(prev).push(insert_text_for(texts(rec@), map@, facts@[f as int])));
        assert(facts@.take(f + 1) =~= facts@.take(f as int).push(facts@[f as int]));
        f += 1;
    }
    assert(facts@.take(facts.len() as int) =~= facts@);
    r
}

/// Sends `sql` and, where the store took it, appends it to `log`.
fn send(conn: &Connection, sql: String, log: &mut Vec<String>) -> (r: Result<(), EtlError>)
    ensures
        r is Ok ==> final(log)@ == old(log)@.push(sql),
        r matches Err(e) ==> e is Database,
{
    let no_ids: Vec<i64> = Vec::new();
    match execute(conn, sql.as_str(), &no_ids) {
        Ok(_) => {
            log.push(sql);
            Ok(())
        },
        Err(e) => Err(database_error(e)),
    }
}

/// Appends `c` to list `j` of `checks`.
fn record_check(checks: &mut Vec<Vec<(i32, i32)>>, j: usize, c: (i32, i32))
    requires
        j < old(checks)@.len(),
    ensures
        final(checks)@ == old(checks)@.update(j as int, final(checks)@[j as int]),
        final(checks)@[j as int]@ == old(checks)@[j as int]@.push(c),
{
    let mut v = checks.remove(j);
    v.push(c);
    checks.insert(j, v);
    assert(checks@ =~= old(checks)@.update(j as int, checks@[j as int]));
}

/// Loads one read record. For each lookup table in order: where the key
/// does not read as an integer the record is marked skipped and the later
/// lookup tables are not looked at; else the store is asked how many rows
/// hold the key, the answer is recorded in `checks`, and where there is
/// none the lookup row is inserted. Unless marked skipped, the record then
/// goes into every fact table. Every INSERT sent is appended to `log`.
/// Returns whether the record went into the fact tables.
fn load_row(
    conn: &Connection,
    rec: &Vec<String>,
    facts: &Vec<TableSpec>,
    lookups: &Vec<TableSpec>,
    map: &Vec<ColumnIndex>,
    checks: &mut Vec<Vec<(i32, i32)>>,
    log: &mut Vec<String>,
) -> (r: Result<bool, EtlError>)
    requires
        rows_mapped(facts@, lookups@, map@),
        old(checks)@.len() == lookups@.len(),
    ensures
        final(checks)@.len() == lookups@.len(),
        r matches Ok(b) ==> b == row_loadable(texts(rec@), map@, lookups@),
        r is Ok ==> forall|j: int|
            0 <= j < lookups@.len() ==> if lookup_keyed(texts(rec@), map@, lookups@, j) {
                checked_once(
                    old(checks)@[j]@,
                    #[trigger] final(checks)@[j]@,
                    key_value(texts(rec@), map@, lookups@[j]),
                )
            } else {
                final(checks)@[j]@ == old(checks)@[j]@
            },
        r is Ok ==> texts(final(log)@) == texts(old(log)@) + row_texts(
            texts(rec@),
            map@,
            facts@,
            lookups@,
            checks_view(final(checks)@),
        ),
        facts@.len() == 0 && lookups@.len() == 0 ==> r is Ok,
        r matches Err(e) ==> e is Database,
{
    let ghost fields = texts(rec@);
    let mut j: usize = 0;
    let mut skip = false;
    while j < lookups.len() && !skip
        invariant
            0 <= j <= lookups.len(),
            rows_mapped(facts@, lookups@, map@),
            fields == texts(rec@),
            checks@.len() == lookups@.len(),
            lookup_reached(fields, map@, lookups@, j as int),
            skip ==> j < lookups.len() && !key_ok(fields, map@, lookups@[j as int]),
            forall|k: int|
                0 <= k < lookups@.len() ==> if k < j && lookup_keyed(fields, map@, lookups@, k) {
                    checked_once(
                        old(checks)@[k]@,
                        #[trigger] checks@[k]@,
                        key_value(fields, map@, lookups@[k]),
                    )
                } else {
                    checks@[k]@ == old(checks)@[k]@
                },
            texts(log@) == texts(old(log)@) + lookup_texts(
                fields,
                map@,
                lookups@,
                checks_view(checks@),
                j as int,
            ),
        decreases lookups.len() - j + if skip {
            0int
        } else {
            1int
        },
    {
        let t = &lookups[j];
        assert(all_mapped(map@, t.columns@) && t.columns.len() > 0);
        assert(index_of(map@, t.columns@[0]@) is Some);
        let text = column_value_of(rec, map, &t.columns[0]);
        match parse_i32(text.as_str()) {
            None => {
                skip = true;
            },
            Some(key) => {
                let found = match first_int(
                    conn,
                    count_sql(t.name.as_str(), t.columns[0].as_str()).as_str(),
                    key,
                ) {
                    Ok(n) => n,
                    Err(e) => return Err(database_error(e)),
                };
                let ghost log_before = log@;
                let ins = lookup_insert(rec, t, map, found);
                let ghost ins_v = ins;
                match ins {
                    Some(sql) => match send(conn, sql, log) {
                        Ok(()) => {},
                        Err(e) => return Err(e),
                    },
                    None => {},
                }
                assert(texts(log@) =~= if found == 0 {
                    texts(log_before).push(insert_text_for(fields, map@, lookups@[j as int]))
                } else {
                    texts(log_before)
                });
                let ghost before = checks@;
                record_check(checks, j, (key, found));
                assert(lookup_keyed(fields, map@, lookups@, j as int));
                assert(checks@[j as int]@.drop_last() =~= before[j as int]@);
                proof {
                    let cv0 = checks_view(before);
                    let cv1 = checks_view(checks@);
                    assert forall|k: int| 0 <= k < j implies cv0[k] == cv1[k] by {
                        assert(checks@[k] == before[k]);
                    }
                    lemma_lookup_texts_agree(fields, map@, lookups@, cv0, cv1, j as int);
                    assert(cv1[j as int].last() == (key, found));
                    assert(lookup_texts(fields, map@, lookups@, cv1, j + 1) == if lookup_keyed(
                        fields,
                        map@,
                        lookups@,
                        j as int,
                    ) && cv1[j as int].last().1 == 0 {
                        lookup_texts(fields, map@, lookups@, cv1, j as int).push(
                            insert_text_for(fields, map@, lookups@[j as int]),
                        )
                    } else {
                        lookup_texts(fields, map@, lookups@, cv1, j as int)
                    });
                    assert(texts(log@) =~= texts(old(log)@) + lookup_texts(
                        fields,
                        map@,
                        lookups@,
                        cv1,
                        j + 1,
                    ));
                }
                j += 1;
            },
        }
    }
    proof {
        assert forall|k: int| 0 <= k < lookups@.len() && k >= j implies !lookup_keyed(
            fields,
            map@,
            lookups@,
            k,
        ) by {
            if k > j {
                assert(!key_ok(fields, map@, lookups@[j as int]));
            }
        }
        lemma_lookup_texts_unkeyed(
            fields,
            map@,
            lookups@,
            checks_view(checks@),
            j as int,
            lookups@.len() as int,
        );
    }
    let ghost lookup_log = log@;
    if !skip {
        let stmts = fact_inserts(rec, facts, map);
        assert(texts(stmts@).len() == stmts@.len());
        let mut f: usize = 0;
        while f < stmts.len()
            invariant
                0 <= f <= stmts.len(),
                stmts@.len() == facts@.len(),
                checks@.len() == lookups@.len(),
                texts(log@) =~= texts(lookup_log) + texts(stmts@).take(f as int),
            decreases stmts.len() - f,
        {
            let ghost prev = log@;
            match send(conn, stmts[f].clone(), log) {
                Ok(()) => {},
                Err(e) => return Err(e),
            }
            assert(texts(log@) =~= texts(prev).push(stmts@[f as int]@));
            assert(texts(stmts@).take(f + 1) =~= texts(stmts@).take(f as int).push(stmts@[f as int]@));
            f += 1;
        }
        assert(texts(stmts@).take(stmts.len() as int) =~= texts(stmts@));
    }
    assert(texts(log@) =~= texts(old(log)@) + row_texts(
        fields,
        map@,
        facts@,
        lookups@,
        checks_view(checks@),
    ));
    Ok(!skip)
}

/// config_ok asks more than rows_mapped.
proof fn lemma_config_maps_rows(
    facts: Seq<TableSpec>,
    lookups: Seq<TableSpec>,
    attrs: Seq<ColumnAttribute>,
    map: Seq<ColumnIndex>,
)
    requires
        config_ok(facts, lookups, attrs, map),
    ensures
        rows_mapped(facts, lookups, map),
{
    assert forall|j: int| 0 <= j < facts.len() implies all_mapped(map, (#[trigger] facts[j]).columns@) by {
        assert(table_described(facts[j], attrs, map));
    }
    assert forall|j: int| 0 <= j < lookups.len() implies all_mapped(map, (#[trigger] lookups[j]).columns@)
        && lookups[j].columns.len() > 0 by {
        assert(table_described(lookups[j], attrs, map));
    }
}

/// Creates each table of `specs` in order.
fn create_tables(conn: &Connection, specs: &Vec<TableSpec>, column_attributes: &Vec<ColumnAttribute>) -> (r:
    Result<(), EtlError>)
    requires
        forall|j: int|
            0 <= j < specs@.len() ==> all_attributed(column_attributes@, (#[trigger] specs@[j]).columns@),
    ensures
        r matches Err(e) ==> e is Database,
        specs@.len() == 0 ==> r is Ok,
{
    let mut j: usize = 0;
    while j < specs.len()
        invariant
            0 <= j <= specs.len(),
            forall|j: int|
                0 <= j < specs@.len() ==> all_attributed(
                    column_attributes@,
                    (#[trigger] specs@[j]).columns@,
                ),
        decreases specs.len() - j,
    {
        assert(all_attributed(column_attributes@, specs@[j as int].columns@));
        match create_table(conn, &specs[j].name, &specs[j].columns, column_attributes) {
            Ok(()) => {},
            Err(e) => return Err(e),
        }
        j += 1;
    }
    Ok(())
}

/// Loads read records into the database of `conn`: checks the
/// configuration, (re)creates the fact tables and then the lookup tables,
/// drops the first record as the header, and loads each later record in
/// order. A record that could not be read is skipped and the load goes on.
pub fn load_records(
    conn: &Connection,
    records: &Vec<Option<Vec<String>>>,
    new_data_tables: &Vec<TableSpec>,
    new_lookup_tables: &Vec<TableSpec>,
    column_attributes: &Vec<ColumnAttribute>,
    column_map: &Vec<ColumnIndex>,
) -> (r: Result<LoadReport, EtlError>)
    ensures
        r matches Err(e) ==> (e is Config <==> !config_ok(
            new_data_tables@,
            new_lookup_tables@,
            column_attributes@,
            column_map@,
        )),
        !config_ok(new_data_tables@, new_lookup_tables@, column_attributes@, column_map@) ==> r is Err,
        r matches Err(e) ==> e is Config || e is Database,
        r matches Ok(rep) ==> report_of(
            rep,
            data_rows(records_view(records@)),
            column_map@,
            new_data_tables@,
            new_lookup_tables@,
        ),
        config_ok(new_data_tables@, new_lookup_tables@, column_attributes@, column_map@)
            && new_data_tables@.len() == 0 && new_lookup_tables@.len() == 0 ==> r is Ok,
{
    match check_config(new_data_tables, new_lookup_tables, column_attributes, column_map) {
        Ok(()) => {},
        Err(e) => return Err(e),
    }
    proof {
        lemma_config_maps_rows(new_data_tables@, new_lookup_tables@, column_attributes@, column_map@);
        assert forall|j: int| 0 <= j < new_data_tables@.len() implies all_attributed(
            column_attributes@,
            (#[trigger] new_data_tables@[j]).columns@,
        ) by {
            assert(table_described(new_data_tables@[j], column_attributes@, column_map@));
        }
        assert forall|j: int| 0 <= j < new_lookup_tables@.len() implies all_attributed(
            column_attributes@,
            (#[trigger] new_lookup_tables@[j]).columns@,
        ) by {
            assert(table_described(new_lookup_tables@[j], column_attributes@, column_map@));
        }
    }
    match create_tables(conn, new_data_tables, column_attributes) {
        Ok(()) => {},
        Err(e) => return Err(e),
    }
    match create_tables(conn, new_lookup_tables, column_attributes) {
        Ok(()) => {},
        Err(e) => return Err(e),
    }
    let ghost view = records_view(records@);
    let ghost map = column_map@;
    let ghost lookups = new_lookup_tables@;
    let mut checks: Vec<Vec<(i32, i32)>> = Vec::new();
    let mut j: usize = 0;
    while j < new_lookup_tables.len()
        invariant
            0 <= j <= new_lookup_tables.len(),
            checks@.len() == j,
            forall|k: int| 0 <= k < j ==> (#[trigger] checks@[k])@ == Seq::<(i32, i32)>::empty(),
        decreases new_lookup_tables.len() - j,
    {
        checks.push(Vec::new());
        j += 1;
    }
    let start: usize = if records.len() > 0 {
        1
    } else {
        0
    };
    let mut i: usize = start;
    let mut malformed: usize = 0;
    let mut skipped: usize = 0;
    let mut loaded: usize = 0;
    let mut inserts: Vec<String> = Vec::new();
    let ghost facts = new_data_tables@;
    assert forall|k: int| 0 <= k < lookups.len() implies check_keys(#[trigger] checks@[k]@)
        == keys_of(view.subrange(start as int, i as int), map, lookups, k) by {
        assert(check_keys(checks@[k]@) =~= Seq::<i32>::empty());
    }
    while i < records.len()
        invariant
            start <= i <= records.len(),
            start == (if records.len() > 0 {
                1int
            } else {
                0int
            }),
            view == records_view(records@),
            map == column_map@,
            lookups == new_lookup_tables@,
            facts == new_data_tables@,
            rows_mapped(new_data_tables@, lookups, map),
            config_ok(new_data_tables@, lookups, column_attributes@, map),
            texts(inserts@) == load_texts(
                view.subrange(start as int, i as int),
                map,
                facts,
                lookups,
                checks_view(checks@),
            ),
            facts.len() == 0 && lookups.len() == 0 ==> checks@.len() == 0,
            malformed + skipped + loaded == i - start,
            malformed == malformed_rows(view.subrange(start as int, i as int)),
            skipped == skipped_rows(view.subrange(start as int, i as int), map, lookups),
            loaded == loaded_rows(view.subrange(start as int, i as int), map, lookups),
            checks@.len() == lookups.len(),
            forall|k: int|
                0 <= k < lookups.len() ==> check_keys(#[trigger] checks@[k]@) == keys_of(
                    view.subrange(start as int, i as int),
                    map,
                    lookups,
                    k,
                ),
        decreases records.len() - i,
    {
        let ghost done = view.subrange(start as int, i as int);
        let ghost next = view.subrange(start as int, i + 1);
        assert(next.drop_last() =~= done);
        assert(next.last() == view[i as int]);
        let ghost before = checks@;
        match &records[i] {
            None => {
                malformed += 1;
                assert(load_texts(next, map, facts, lookups, checks_view(checks@)) =~= load_texts(
                    done,
                    map,
                    facts,
                    lookups,
                    checks_view(checks@),
                ));
                assert forall|k: int| 0 <= k < lookups.len() implies check_keys(
                    #[trigger] checks@[k]@,
                ) == keys_of(next, map, lookups, k) by {
                    assert(keys_of(next, map, lookups, k) == keys_of(done, map, lookups, k));
                }
            },
            Some(rec) => {
                assert(view[i as int] == Some(texts(rec@)));
                let ghost inserts_before = inserts@;
                match load_row(
                    conn,
                    rec,
                    new_data_tables,
                    new_lookup_tables,
                    column_map,
                    &mut checks,
                    &mut inserts,
                ) {
                    Ok(true) => {
                        loaded += 1;
                    },
                    Ok(false) => {
                        skipped += 1;
                    },
                    Err(e) => return Err(e),
                }
                proof {
                    let f = texts(rec@);
                    let cv0 = checks_view(before);
                    let cv1 = checks_view(checks@);
                    assert forall|k: int| 0 <= k < cv0.len() implies #[trigger] checks_before(
                        cv1,
                        view[i as int],
                        map,
                        lookups,
                    )[k] == cv0[k] by {
                        if lookup_keyed(f, map, lookups, k) {
                            assert(checked_once(before[k]@, checks@[k]@, key_value(f, map, lookups[k])));
                        } else {
                            assert(checks@[k]@ == before[k]@);
                        }
                    }
                    assert(checks_before(cv1, view[i as int], map, lookups) =~= cv0);
                    assert(texts(inserts@) =~= load_texts(next, map, facts, lookups, cv1));
                }
                assert forall|k: int| 0 <= k < lookups.len() implies check_keys(
                    #[trigger] checks@[k]@,
                ) == keys_of(next, map, lookups, k) by {
                    let f = texts(rec@);
                    if lookup_keyed(f, map, lookups, k) {
                        assert(keys_of(next, map, lookups, k) == keys_of(done, map, lookups, k).push(
                            key_value(f, map, lookups[k]),
                        ));
                        assert(checked_once(before[k]@, checks@[k]@, key_value(f, map, lookups[k])));
                        assert(check_keys(checks@[k]@) =~= check_keys(before[k]@).push(
                            key_value(f, map, lookups[k]),
                        ));
                    } else {
                        assert(keys_of(next, map, lookups, k) == keys_of(done, map, lookups, k));
                    }
                }
            },
        }
        i += 1;
    }
    assert(view.subrange(start as int, records.len() as int) == data_rows(view));
    let mut lookup_rows: Vec<usize> = Vec::new();
    let mut k: usize = 0;
    while k < checks.len()
        invariant
            0 <= k <= checks.len(),
            lookup_rows@.len() == k,
            forall|m: int|
                0 <= m < k ==> #[trigger] lookup_rows@[m] == inserted_by(checks@[m]@).len(),
        decreases checks.len() - k,
    {
        lookup_rows.push(inserted_count(&checks[k]));
        k += 1;
    }
    Ok(
        LoadReport {
            rows: i - start,
            malformed,
            skipped,
            loaded,
            lookup_checks: checks,
            lookup_rows,
            inserts,
        },
    )
}

/// How many of `checks` found no row.
fn inserted_count(checks: &Vec<(i32, i32)>) -> (r: usize)
    ensures
        r == inserted_by(checks@).len(),
{
    let mut n: usize = 0;
    let mut i: usize = 0;
    while i < checks.len()
        invariant
            0 <= i <= checks.len(),
            n <= i,
            n == inserted_by(checks@.take(i as int)).len(),
        decreases checks.len() - i,
    {
        assert(checks@.take(i + 1).drop_last() =~= checks@.take(i as int));
        if checks[i].1 == 0 {
            n += 1;
        }
        i += 1;
    }
    assert(checks@.take(checks.len() as int) =~= checks@);
    n
}

/// Loads the CSV text `csv_data` into the database file `database_name`, as
/// `load_records` does with the records that the `csv` crate reads from it.
/// The configuration is checked before the database is opened.
pub fn transform_n_load(
    csv_data: &[u8],
    database_name: &str,
    new_data_tables: &Vec<TableSpec>,
    new_lookup_tables: &Vec<TableSpec>,
    column_attributes: &Vec<ColumnAttribute>,
    column_map: &Vec<ColumnIndex>,
) -> (r: Result<LoadReport, EtlError>)
    ensures
        r matches Err(e) ==> (e is Config <==> !config_ok(
            new_data_tables@,
            new_lookup_tables@,
            column_attributes@,
            column_map@,
        )),
        !config_ok(new_data_tables@, new_lookup_tables@, column_attributes@, column_map@) ==> r is Err,
        r matches Err(e) ==> e is Config || e is Database,
        r matches Ok(rep) ==> report_of(
            rep,
            data_rows(csv_records(csv_data@)),
            column_map@,
            new_data_tables@,
            new_lookup_tables@,
        ),
{
    match check_config(new_data_tables, new_lookup_tables, column_attributes, column_map) {
        Ok(()) => {},
        Err(e) => return Err(e),
    }
    let conn = match open_db(database_name) {
        Ok(c) => c,
        Err(e) => return Err(database_error(e)),
    };
    let records = read_csv(csv_data);
    load_records(&conn, &records, new_data_tables, new_lookup_tables, column_attributes, column_map)
}

/// How many rows satisfying `p` two runs of records hold together.
pub proof fn lemma_count_rows_concat(a: Seq<RecordView>, b: Seq<RecordView>, p: spec_fn(RecordView) -> bool)
    ensures
        count_rows(a + b, p) == count_rows(a, p) + count_rows(b, p),
    decreases b.len(),
{
    if b.len() == 0 {
        assert(a + b =~= a);
    } else {
        lemma_count_rows_concat(a, b.drop_last(), p);
        assert((a + b).drop_last() =~= a + b.drop_last());
    }
}

/// Every record after the header is malformed, skipped or loaded, and only
/// one of these: the fact tables receive the read records less those with a
/// lookup key that is not an integer.
pub proof fn law_fact_rows(rows: Seq<RecordView>, map: Seq<ColumnIndex>, lookups: Seq<TableSpec>)
    ensures
        loaded_rows(rows, map, lookups) + skipped_rows(rows, map, lookups) + malformed_rows(rows)
            == rows.len(),
    decreases rows.len(),
{
    if rows.len() > 0 {
        law_fact_rows(rows.drop_last(), map, lookups);
    }
}

/// A record that could not be read changes nothing but the count of such
/// records: the records around it are loaded, skipped and counted as
/// without it.
pub proof fn law_malformed_skipped(
    before: Seq<RecordView>,
    after: Seq<RecordView>,
    map: Seq<ColumnIndex>,
    lookups: Seq<TableSpec>,
)
    ensures
        loaded_rows(before + seq![None] + after, map, lookups) == loaded_rows(before + after, map, lookups),
        skipped_rows(before + seq![None] + after, map, lookups) == skipped_rows(before + after, map, lookups),
        malformed_rows(before + seq![None] + after) == malformed_rows(before + after) + 1,
{
    let bad: Seq<RecordView> = seq![None];
    assert forall|p: spec_fn(RecordView) -> bool| #[trigger] count_rows(before + bad + after, p)
        == count_rows(before + after, p) + if p(None) {
        1nat
    } else {
        0nat
    } by {
        lemma_count_rows_concat(before + bad, after, p);
        lemma_count_rows_concat(before, bad, p);
        lemma_count_rows_concat(before, after, p);
        assert(bad.drop_last() =~= Seq::<RecordView>::empty());
        assert(bad.last() == None::<Seq<Seq<char>>>);
        assert(count_rows(bad.drop_last(), p) == 0);
        assert(count_rows(bad, p) == if p(None) {
            1nat
        } else {
            0nat
        });
    }
}

/// How many times `k` occurs in `s`.
pub open spec fn occurrences(s: Seq<i32>, k: i32) -> nat
    decreases s.len(),
{
    if s.len() == 0 {
        0
    } else {
        occurrences(s.drop_last(), k) + if s.last() == k {
            1nat
        } else {
            0nat
        }
    }
}

/// The keys inserted into a fresh lookup table, in order, when the rows
/// bring `keys` and the store answers each count check with the number of
/// rows already inserted under the key.
pub open spec fn counted_inserts(keys: Seq<i32>) -> Seq<i32>
    decreases keys.len(),
{
    if keys.len() == 0 {
        Seq::empty()
    } else {
        let prev = counted_inserts(keys.drop_last());
        if occurrences(prev, keys.last()) == 0 {
            prev.push(keys.last())
        } else {
            prev
        }
    }
}

proof fn lemma_occurrences_contains(s: Seq<i32>, k: i32)
    ensures
        occurrences(s, k) == 0 <==> !s.contains(k),
    decreases s.len(),
{
    if s.len() > 0 {
        lemma_occurrences_contains(s.drop_last(), k);
        if s.last() == k {
            assert(s.contains(k)) by {
                assert(s[s.len() - 1] == k);
            }
        } else {
            assert(s.contains(k) ==> s.drop_last().contains(k)) by {
                if s.contains(k) {
                    let i = choose|i: int| 0 <= i < s.len() && s[i] == k;
                    assert(s.drop_last()[i] == k);
                }
            }
            assert(s.drop_last().contains(k) ==> s.contains(k)) by {
                if s.drop_last().contains(k) {
                    let i = choose|i: int| 0 <= i < s.drop_last().len() && s.drop_last()[i] == k;
                    assert(s[i] == k);
                }
            }
        }
    }
}

/// Filled by the count-then-insert rule against a store that counts what
/// was inserted, a lookup table holds every key that the rows bring exactly
/// once.
proof fn lemma_counted_inserts_distinct(keys: Seq<i32>)
    ensures
        counted_inserts(keys).no_duplicates(),
        forall|k: i32| counted_inserts(keys).contains(k) <==> keys.contains(k),
        counted_inserts(keys).len() == keys.to_set().len(),
    decreases keys.len(),
{
    if keys.len() > 0 {
        let rest = keys.drop_last();
        let k = keys.last();
        lemma_counted_inserts_distinct(rest);
        let prev = counted_inserts(rest);
        lemma_occurrences_contains(prev, k);
        assert forall|x: i32| keys.contains(x) <==> rest.contains(x) || x == k by {
            if keys.contains(x) && x != k {
                let i = choose|i: int| 0 <= i < keys.len() && keys[i] == x;
                assert(rest[i] == x);
            }
            if rest.contains(x) {
                let i = choose|i: int| 0 <= i < rest.len() && rest[i] == x;
                assert(keys[i] == x);
            }
            if x == k {
                assert(keys[keys.len() - 1] == x);
            }
        }
        if !prev.contains(k) {
            let next = prev.push(k);
            assert forall|x: i32| next.contains(x) <==> prev.contains(x) || x == k by {
                if next.contains(x) && x != k {
                    let i = choose|i: int| 0 <= i < next.len() && next[i] == x;
                    assert(prev[i] == x);
                }
                if prev.contains(x) {
                    let i = choose|i: int| 0 <= i < prev.len() && prev[i] == x;
                    assert(next[i] == x);
                }
                if x == k {
                    assert(next[next.len() - 1] == x);
                }
            }
        }
    }
    let ins = counted_inserts(keys);
    assert(ins.to_set() =~= keys.to_set());
    ins.unique_seq_to_set();
}

/// Each count in `checks` is the number of rows that the checks before it
/// inserted under its key: what the store reports for a lookup table that
/// the load created empty.
pub open spec fn counts_match_inserts(checks: Seq<(i32, i32)>) -> bool {
    forall|i: int|
        0 <= i < checks.len() ==> (#[trigger] checks[i]).1 as int == occurrences(
            inserted_by(checks.take(i)),
            checks[i].0,
        ) as int
}

proof fn lemma_inserted_by_counted(checks: Seq<(i32, i32)>)
    requires
        counts_match_inserts(checks),
    ensures
        inserted_by(checks) == counted_inserts(check_keys(checks)),
    decreases checks.len(),
{
    if checks.len() > 0 {
        let d = checks.drop_last();
        assert forall|i: int| 0 <= i < d.len() implies (#[trigger] d[i]).1 as int == occurrences(
            inserted_by(d.take(i)),
            d[i].0,
        ) as int by {
            assert(d.take(i) =~= checks.take(i));
            assert(d[i] == checks[i]);
        }
        lemma_inserted_by_counted(d);
        assert(check_keys(checks).drop_last() =~= check_keys(d));
        assert(checks.take(checks.len() - 1) =~= d);
        assert(checks[checks.len() - 1] == checks.last());
    }
}

/// Dedup: a lookup row is sent for exactly the checks that found no row
/// (`lookup_texts`), so where every count that the store reports is the
/// number of rows that the load inserted under that key before, the keys
/// inserted into a lookup table are one for each distinct key checked: no
/// key twice, and every key checked once.
pub proof fn law_lookup_dedup(checks: Seq<(i32, i32)>)
    requires
        counts_match_inserts(checks),
    ensures
        inserted_by(checks) == counted_inserts(check_keys(checks)),
        inserted_by(checks).no_duplicates(),
        forall|k: i32| inserted_by(checks).contains(k) <==> check_keys(checks).contains(k),
        inserted_by(checks).len() == check_keys(checks).to_set().len(),
{
    lemma_inserted_by_counted(checks);
    lemma_counted_inserts_distinct(check_keys(checks));
}

/// What the report of a successful load over `rows` (the records after the
/// header) amounts to: the records loaded into the fact tables are the read
/// records less those with a lookup key that is not an integer; and where
/// the store's counts match the load's own inserts, each lookup table gets
/// one row for each distinct integer key that the records bring to it.
pub proof fn law_load_counts(
    rep: LoadReport,
    rows: Seq<RecordView>,
    map: Seq<ColumnIndex>,
    facts: Seq<TableSpec>,
    lookups: Seq<TableSpec>,
)
    requires
        report_of(rep, rows, map, facts, lookups),
        forall|j: int|
            0 <= j < lookups.len() ==> counts_match_inserts(#[trigger] rep.lookup_checks@[j]@),
    ensures
        rep.loaded == rows.len() - rep.malformed - rep.skipped,
        forall|j: int|
            0 <= j < lookups.len() ==> #[trigger] rep.lookup_rows@[j] == keys_of(
                rows,
                map,
                lookups,
                j,
            ).to_set().len(),
{
    law_fact_rows(rows, map, lookups);
    assert forall|j: int| 0 <= j < lookups.len() implies #[trigger] rep.lookup_rows@[j] == keys_of(
        rows,
        map,
        lookups,
        j,
    ).to_set().len() by {
        law_lookup_dedup(rep.lookup_checks@[j]@);
    }
}

/// A record that could not be read sends no INSERT and makes no check: the
/// load of the records before it, with the same checks, sends the same.
pub proof fn law_malformed_sends_nothing(
    rows: Seq<RecordView>,
    map: Seq<ColumnIndex>,
    facts: Seq<TableSpec>,
    lookups: Seq<TableSpec>,
    after: Seq<Seq<(i32, i32)>>,
)
    ensures
        load_texts(rows.push(None), map, facts, lookups, after) == load_texts(
            rows,
            map,
            facts,
            lookups,
            after,
        ),
{
    assert(rows.push(None).drop_last() =~= rows);
    assert(load_texts(rows.push(None), map, facts, lookups, after) =~= load_texts(
        rows,
        map,
        facts,
        lookups,
        after,
    ));
}

} // verus!
