//! The text of every SQL statement the library sends. Identifiers and values
//! are interpolated as given, without escaping; only row ids and lookup keys
//! are bound as parameters (`?`, `?1`).

use vstd::prelude::*;

verus! {

/// The views of a list of strings.
pub open spec fn texts(v: Seq<String>) -> Seq<Seq<char>> {
    v.map_values(|s: String| s@)
}

/// `parts` with `sep` between each two neighbours.
pub open spec fn join(parts: Seq<Seq<char>>, sep: Seq<char>) -> Seq<char>
    decreases parts.len(),
{
    if parts.len() == 0 {
        Seq::empty()
    } else if parts.len() == 1 {
        parts[0]
    } else {
        join(parts.drop_last(), sep) + sep + parts.last()
    }
}

/// A value written as an SQL string literal, in single quotes.
pub open spec fn quoted(v: Seq<char>) -> Seq<char> {
    "'"@ + v + "'"@
}

/// One assignment of an UPDATE's SET clause: `col='value'`.
pub open spec fn assignment(col: Seq<char>, v: Seq<char>) -> Seq<char> {
    col + "="@ + quoted(v)
}

/// One column definition of a CREATE TABLE: `col ATTRIBUTES`.
pub open spec fn column_def(col: Seq<char>, attribute: Seq<char>) -> Seq<char> {
    col + " "@ + attribute
}

pub open spec fn table_info_text(table: Seq<char>) -> Seq<char> {
    "PRAGMA table_info('"@ + table + "')"@
}

pub open spec fn primary_key_text(table: Seq<char>) -> Seq<char> {
    "SELECT name FROM pragma_table_info('"@ + table + "') WHERE pk > 0"@
}

pub open spec fn select_by_key_text(table: Seq<char>, pk: Seq<char>) -> Seq<char> {
    "SELECT * FROM "@ + table + " WHERE "@ + pk + " = ?"@
}

pub open spec fn select_all_text(table: Seq<char>) -> Seq<char> {
    "SELECT * FROM "@ + table
}

pub open spec fn delete_text(table: Seq<char>, pk: Seq<char>) -> Seq<char> {
    "DELETE FROM "@ + table + " WHERE "@ + pk + " = ?"@
}

/// The INSERT of the CRUD path: each value quoted on its own.
pub open spec fn insert_text(table: Seq<char>, columns: Seq<Seq<char>>, values: Seq<Seq<char>>) -> Seq<
    char,
> {
    "INSERT INTO "@ + table + " ("@ + join(columns, ", "@) + ") VALUES ("@ + join(
        values.map_values(|v: Seq<char>| quoted(v)),
        ", "@,
    ) + ")"@
}

/// The INSERT of the load path: the values joined by `', '` inside one pair
/// of quotes.
pub open spec fn row_insert_text(table: Seq<char>, columns: Seq<Seq<char>>, values: Seq<Seq<char>>) -> Seq<
    char,
> {
    "INSERT INTO "@ + table + " ("@ + join(columns, ", "@) + ") VALUES ('"@ + join(values, "', '"@)
        + "')"@
}

pub open spec fn set_clause_text(changes: Seq<(String, String)>) -> Seq<char> {
    join(changes.map_values(|c: (String, String)| assignment(c.0@, c.1@)), ", "@)
}

pub open spec fn update_text(table: Seq<char>, changes: Seq<(String, String)>, pk: Seq<char>) -> Seq<
    char,
> {
    "UPDATE "@ + table + " SET "@ + set_clause_text(changes) + " WHERE "@ + pk + " = ?"@
}

pub open spec fn drop_table_text(table: Seq<char>) -> Seq<char> {
    "DROP TABLE IF EXISTS "@ + table
}

pub open spec fn create_table_text(table: Seq<char>, defs: Seq<Seq<char>>) -> Seq<char> {
    "CREATE TABLE "@ + table + " ("@ + join(defs, ", "@) + ")"@
}

pub open spec fn count_text(table: Seq<char>, key: Seq<char>) -> Seq<char> {
    "SELECT COUNT("@ + key + ") FROM "@ + table + " WHERE "@ + key + " = ?1"@
}

/// Joins `parts` with `sep` between each two neighbours.
pub fn join_with(parts: &Vec<String>, sep: &str) -> (r: String)
    ensures
        r@ == join(texts(parts@), sep@),
{
    let mut r = String::new();
    let mut i: usize = 0;
    while i < parts.len()
        invariant
            0 <= i <= parts.len(),
            r@ == join(texts(parts@).take(i as int), sep@),
        decreases parts.len() - i,
    {
        if i > 0 {
            r.append(sep);
        }
        r.append(parts[i].as_str());
        assert(texts(parts@).take(i + 1).drop_last() =~= texts(parts@).take(i as int));
        i += 1;
    }
    assert(texts(parts@).take(parts.len() as int) =~= texts(parts@));
    r
}

/// `PRAGMA table_info('<table>')`: one row per column, the name in column 1.
pub fn table_info_sql(table: &str) -> (r: String)
    ensures
        r@ == table_info_text(table@),
{
    let mut s = String::from_str("PRAGMA table_info('");
    s.append(table);
    s.append("')");
    s
}

/// The names of the columns whose key ordinal is positive.
pub fn primary_key_sql(table: &str) -> (r: String)
    ensures
        r@ == primary_key_text(table@),
{
    let mut s = String::from_str("SELECT name FROM pragma_table_info('");
    s.append(table);
    s.append("') WHERE pk > 0");
    s
}

/// The rows whose primary key equals the bound id.
pub fn select_by_key_sql(table: &str, pk: &str) -> (r: String)
    ensures
        r@ == select_by_key_text(table@, pk@),
{
    let mut s = String::from_str("SELECT * FROM ");
    s.append(table);
    s.append(" WHERE ");
    s.append(pk);
    s.append(" = ?");
    s
}

/// Every row of the table.
pub fn select_all_sql(table: &str) -> (r: String)
    ensures
        r@ == select_all_text(table@),
{
    let mut s = String::from_str("SELECT * FROM ");
    s.append(table);
    s
}

/// Removes the rows whose primary key equals the bound id.
pub fn delete_sql(table: &str, pk: &str) -> (r: String)
    ensures
        r@ == delete_text(table@, pk@),
{
    let mut s = String::from_str("DELETE FROM ");
    s.append(table);
    s.append(" WHERE ");
    s.append(pk);
    s.append(" = ?");
    s
}

/// Each value as an SQL string literal.
fn quote_all(values: &Vec<String>) -> (r: Vec<String>)
    ensures
        texts(r@) == texts(values@).map_values(|v: Seq<char>| quoted(v)),
{
    let mut r: Vec<String> = Vec::new();
    let mut i: usize = 0;
    while i < values.len()
        invariant
            0 <= i <= values.len(),
            texts(r@) =~= texts(values@).take(i as int).map_values(|v: Seq<char>| quoted(v)),
        decreases values.len() - i,
    {
        let mut q = String::from_str("'");
        q.append(values[i].as_str());
        q.append("'");
        let ghost prev = r@;
        r.push(q);
        assert(texts(r@) =~= texts(prev).push(quoted(values@[i as int]@)));
        assert(texts(values@).take(i + 1) =~= texts(values@).take(i as int).push(values@[i as int]@));
        i += 1;
    }
    assert(texts(values@).take(values.len() as int) =~= texts(values@));
    r
}

/// The INSERT of a whole row: `columns` and `values` paired by position.
pub fn insert_sql(table: &str, columns: &Vec<String>, values: &Vec<String>) -> (r: String)
    ensures
        r@ == insert_text(table@, texts(columns@), texts(values@)),
{
    let cols = join_with(columns, ", ");
    let vals = join_with(&quote_all(values), ", ");
    let mut s = String::from_str("INSERT INTO ");
    s.append(table);
    s.append(" (");
    s.append(cols.as_str());
    s.append(") VALUES (");
    s.append(vals.as_str());
    s.append(")");
    s
}

/// The INSERT that the load sends for one lookup or fact row.
pub fn row_insert_sql(table: &str, columns: &Vec<String>, values: &Vec<String>) -> (r: String)
    ensures
        r@ == row_insert_text(table@, texts(columns@), texts(values@)),
{
    let cols = join_with(columns, ", ");
    let vals = join_with(values, "', '");
    let mut s = String::from_str("INSERT INTO ");
    s.append(table);
    s.append(" (");
    s.append(cols.as_str());
    s.append(") VALUES ('");
    s.append(vals.as_str());
    s.append("')");
    s
}

/// Sets each listed column to its value, in the rows whose primary key
/// equals the bound id. No other column is named.
pub fn update_sql(table: &str, changes: &Vec<(String, String)>, pk: &str) -> (r: String)
    ensures
        r@ == update_text(table@, changes@, pk@),
{
    let mut parts: Vec<String> = Vec::new();
    let mut i: usize = 0;
    while i < changes.len()
        invariant
            0 <= i <= changes.len(),
            texts(parts@) =~= changes@.take(i as int).map_values(
                |c: (String, String)| assignment(c.0@, c.1@),
            ),
        decreases changes.len() - i,
    {
        let mut a = changes[i].0.clone();
        a.append("=");
        a.append("'");
        a.append(changes[i].1.as_str());
        a.append("'");
        assert(a@ =~= assignment(changes@[i as int].0@, changes@[i as int].1@));
        let ghost prev = parts@;
        parts.push(a);
        assert(texts(parts@) =~= texts(prev).push(assignment(changes@[i as int].0@, changes@[i as int].1@)));
        assert(changes@.take(i + 1) =~= changes@.take(i as int).push(changes@[i as int]));
        i += 1;
    }
    assert(changes@.take(changes.len() as int) =~= changes@);
    let set = join_with(&parts, ", ");
    let mut s = String::from_str("UPDATE ");
    s.append(table);
    s.append(" SET ");
    s.append(set.as_str());
    s.append(" WHERE ");
    s.append(pk);
    s.append(" = ?");
    s
}

pub fn drop_table_sql(table: &str) -> (r: String)
    ensures
        r@ == drop_table_text(table@),
{
    let mut s = String::from_str("DROP TABLE IF EXISTS ");
    s.append(table);
    s
}

/// CREATE TABLE from column definitions already written as `col ATTRIBUTES`.
pub fn create_table_sql(table: &str, defs: &Vec<String>) -> (r: String)
    ensures
        r@ == create_table_text(table@, texts(defs@)),
{
    let body = join_with(defs, ", ");
    let mut s = String::from_str("CREATE TABLE ");
    s.append(table);
    s.append(" (");
    s.append(body.as_str());
    s.append(")");
    s
}

/// The number of rows whose `key` column equals the bound value.
pub fn count_sql(table: &str, key: &str) -> (r: String)
    ensures
        r@ == count_text(table@, key@),
{
    let mut s = String::from_str("SELECT COUNT(");
    s.append(key);
    s.append(") FROM ");
    s.append(table);
    s.append(" WHERE ");
    s.append(key);
    s.append(" = ?1");
    s
}

} // verus!
