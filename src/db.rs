//! The calls into rusqlite that the library makes. What a statement does to
//! the database is up to SQLite: these contracts promise nothing of it.

use crate::error::EtlError;
use rusqlite::{Connection, Error};
use vstd::prelude::*;

verus! {

#[verifier::external_type_specification]
#[verifier::external_body]
pub struct ExConnection(Connection);

#[verifier::external_type_specification]
#[verifier::external_body]
pub struct ExSqlError(Error);

/// Relies on rusqlite::Connection::open: opens the database file at `path`,
/// creating it where it does not exist.
#[verifier::external_body]
pub(crate) fn open_db(path: &str) -> Result<Connection, Error> {
    Connection::open(path)
}

/// Relies on rusqlite::Connection::execute: runs one statement with `ids`
/// bound to its parameters in order; the number of rows it changed.
#[verifier::external_body]
pub(crate) fn execute(conn: &Connection, sql: &str, ids: &Vec<i64>) -> Result<usize, Error> {
    conn.execute(sql, rusqlite::params_from_iter(ids.iter()))
}

/// Relies on rusqlite::Statement::query_map: column `column` of each result
/// row, read as text; `None` where some row's value could not be read so.
#[verifier::external_body]
pub(crate) fn query_column(conn: &Connection, sql: &str, column: usize, ids: &Vec<i64>) -> Result<
    Option<Vec<String>>,
    Error,
> {
    let mut stmt = conn.prepare(sql)?;
    let rows = stmt.query_map(
        rusqlite::params_from_iter(ids.iter()),
        |row| row.get::<usize, String>(column),
    )?;
    let values: rusqlite::Result<Vec<String>> = rows.collect();
    Ok(values.ok())
}

/// Relies on rusqlite::Statement::query_map: columns 0, 1 and 2 of each
/// result row, read as integer, text and integer.
#[verifier::external_body]
pub(crate) fn query_triples(conn: &Connection, sql: &str) -> Result<Vec<(i32, String, i32)>, Error> {
    let mut stmt = conn.prepare(sql)?;
    let rows = stmt.query_map([], |row| Ok((row.get(0)?, row.get(1)?, row.get(2)?)))?;
    rows.collect()
}

/// Relies on rusqlite::Connection::query_row: column 0 of the first result
/// row, read as text; `None` where the query returned no row
/// (`Error::QueryReturnedNoRows`).
#[verifier::external_body]
pub(crate) fn first_text(conn: &Connection, sql: &str) -> Result<Option<String>, Error> {
    match conn.query_row(sql, [], |row| row.get::<usize, String>(0)) {
        Ok(v) => Ok(Some(v)),
        Err(Error::QueryReturnedNoRows) => Ok(None),
        Err(e) => Err(e),
    }
}

/// Relies on rusqlite::Connection::query_row: column 0 of the first result
/// row, read as an integer, with `key` bound to the statement's parameter.
#[verifier::external_body]
pub(crate) fn first_int(conn: &Connection, sql: &str, key: i32) -> Result<i32, Error> {
    conn.query_row(sql, [key], |row| row.get::<usize, i32>(0))
}

/// The library's error for a failure of the engine, with its message.
pub fn database_error(e: Error) -> (r: EtlError)
    ensures
        r is Database,
{
    EtlError::Database(e.to_string())
}

} // verus!
