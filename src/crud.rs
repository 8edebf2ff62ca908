//! Single-row operations on a named table. Each opens its own connection to
//! the database file, which closes when the operation returns.

use crate::db::{database_error, execute, first_text, open_db, query_column, query_triples};
use crate::error::EtlError;
use crate::sql::{delete_sql, insert_sql, primary_key_sql, select_all_sql, select_by_key_sql, table_info_sql, update_sql};
use rusqlite::Connection;
use vstd::prelude::*;

verus! {

/// Runs `query_string` and returns each result row's columns 0, 1 and 2,
/// read as integer, text and integer.
pub fn query_exec(conn: &Connection, query_string: &str) -> (r: Result<Vec<(i32, String, i32)>, EtlError>)
    ensures
        r matches Err(e) ==> e is Database,
{
    match query_triples(conn, query_string) {
        Ok(rows) => Ok(rows),
        Err(e) => Err(database_error(e)),
    }
}

/// The names of the table's columns in order; empty where the table does
/// not exist or a name could not be read.
pub fn get_table_columns(database_name: &str, table_name: &str) -> (r: Result<Vec<String>, EtlError>)
    ensures
        r matches Err(e) ==> e is Database,
{
    let conn = match open_db(database_name) {
        Ok(c) => c,
        Err(e) => return Err(database_error(e)),
    };
    let no_ids: Vec<i64> = Vec::new();
    match query_column(&conn, table_info_sql(table_name).as_str(), 1, &no_ids) {
        Ok(found) => Ok(columns_or_empty(found)),
        Err(e) => Err(database_error(e)),
    }
}

/// The column names that the schema query read, or none where some name
/// could not be read.
pub fn columns_or_empty(found: Option<Vec<String>>) -> (r: Vec<String>)
    ensures
        found matches Some(c) ==> r@ == c@,
        found is None ==> r@.len() == 0,
{
    match found {
        Some(c) => c,
        None => Vec::new(),
    }
}

/// The primary key that the key query found; where it found no row, the
/// table has none.
pub fn primary_key_of(found: Option<String>, table_name: &str) -> (r: Result<String, EtlError>)
    ensures
        found matches Some(pk) ==> (r matches Ok(p) && p@ == pk@),
        found is None ==> (r matches Err(EtlError::NotFound(t)) && t@ == table_name@),
{
    match found {
        Some(pk) => Ok(pk),
        None => Err(EtlError::NotFound(String::from_str(table_name))),
    }
}

/// The first column of the table whose key ordinal is positive, as
/// `primary_key_of` gives it from what the key query found.
pub fn get_primary_key(conn: &Connection, table_name: &str) -> (r: Result<String, EtlError>)
    ensures
        r matches Err(e) ==> e is Database || e is NotFound,
        r matches Err(EtlError::NotFound(t)) ==> t@ == table_name@,
{
    match first_text(conn, primary_key_sql(table_name).as_str()) {
        Ok(found) => primary_key_of(found, table_name),
        Err(e) => Err(database_error(e)),
    }
}

/// The rows whose primary key is `data_id`, each given by its first column
/// only; `None` where some such value could not be read as text.
pub fn read_data(database_name: &str, table_name: &str, data_id: i64) -> (r: Result<
    Option<Vec<String>>,
    EtlError,
>)
    ensures
        r matches Err(e) ==> e is Database || e is NotFound,
        r matches Err(EtlError::NotFound(t)) ==> t@ == table_name@,
{
    let conn = match open_db(database_name) {
        Ok(c) => c,
        Err(e) => return Err(database_error(e)),
    };
    let pk = match get_primary_key(&conn, table_name) {
        Ok(pk) => pk,
        Err(e) => return Err(e),
    };
    let ids: Vec<i64> = vec![data_id];
    match query_column(&conn, select_by_key_sql(table_name, pk.as_str()).as_str(), 0, &ids) {
        Ok(values) => Ok(values),
        Err(e) => Err(database_error(e)),
    }
}

/// Every row of the table, each given by its first column only; `None`
/// where some such value could not be read as text.
pub fn read_all_data(database_name: &str, table_name: &str) -> (r: Result<Option<Vec<String>>, EtlError>)
    ensures
        r matches Err(e) ==> e is Database,
{
    let conn = match open_db(database_name) {
        Ok(c) => c,
        Err(e) => return Err(database_error(e)),
    };
    let no_ids: Vec<i64> = Vec::new();
    match query_column(&conn, select_all_sql(table_name).as_str(), 0, &no_ids) {
        Ok(values) => Ok(values),
        Err(e) => Err(database_error(e)),
    }
}

/// Inserts `row`, its values paired by position with the table's columns.
pub fn save_data(database_name: &str, table_name: &str, row: &Vec<String>) -> (r: Result<String, EtlError>)
    ensures
        r matches Ok(m) ==> m@ == "Save Successful"@,
        r matches Err(e) ==> e is Database,
{
    let conn = match open_db(database_name) {
        Ok(c) => c,
        Err(e) => return Err(database_error(e)),
    };
    let columns = match get_table_columns(database_name, table_name) {
        Ok(c) => c,
        Err(e) => return Err(e),
    };
    let no_ids: Vec<i64> = Vec::new();
    match execute(&conn, insert_sql(table_name, &columns, row).as_str(), &no_ids) {
        Ok(_) => Ok(String::from_str("Save Successful")),
        Err(e) => Err(database_error(e)),
    }
}

/// Removes the rows whose primary key is `data_id`.
pub fn delete_data(database_name: &str, table_name: &str, data_id: i64) -> (r: Result<String, EtlError>)
    ensures
        r matches Ok(m) ==> m@ == "Delete Successful"@,
        r matches Err(e) ==> e is Database || e is NotFound,
        r matches Err(EtlError::NotFound(t)) ==> t@ == table_name@,
{
    let conn = match open_db(database_name) {
        Ok(c) => c,
        Err(e) => return Err(database_error(e)),
    };
    let pk = match get_primary_key(&conn, table_name) {
        Ok(pk) => pk,
        Err(e) => return Err(e),
    };
    let ids: Vec<i64> = vec![data_id];
    match execute(&conn, delete_sql(table_name, pk.as_str()).as_str(), &ids) {
        Ok(_) => Ok(String::from_str("Delete Successful")),
        Err(e) => Err(database_error(e)),
    }
}

/// Sets each listed column to its value in the rows whose primary key is
/// `data_id`; the statement names no other column.
pub fn update_data(
    database_name: &str,
    table_name: &str,
    things_to_update: &Vec<(String, String)>,
    data_id: i64,
) -> (r: Result<String, EtlError>)
    ensures
        r matches Ok(m) ==> m@ == "Update Successful"@,
        r matches Err(e) ==> e is Database || e is NotFound,
        r matches Err(EtlError::NotFound(t)) ==> t@ == table_name@,
{
    let conn = match open_db(database_name) {
        Ok(c) => c,
        Err(e) => return Err(database_error(e)),
    };
    let pk = match get_primary_key(&conn, table_name) {
        Ok(pk) => pk,
        Err(e) => return Err(e),
    };
    let ids: Vec<i64> = vec![data_id];
    match execute(&conn, update_sql(table_name, things_to_update, pk.as_str()).as_str(), &ids) {
        Ok(_) => Ok(String::from_str("Update Successful")),
        Err(e) => Err(database_error(e)),
    }
}

} // verus!
