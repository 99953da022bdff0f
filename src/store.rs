//! The calls into SQLite that the repository makes, through rusqlite.
//!
//! A store is shared with other processes, so what a query returns is not a
//! function of its arguments: these items promise nothing of the rows they
//! read, and a write leaves the connection in a state that is not known.
//! Statement parameters are bound in order, the texts first, then the integers.
use vstd::prelude::*;

verus! {

#[verifier::external_type_specification]
#[verifier::external_body]
pub struct ExConnection(rusqlite::Connection);

#[verifier::external_type_specification]
#[verifier::external_body]
pub struct ExError(rusqlite::Error);

/// Relies on `rusqlite::Error::sqlite_extended_error_code`: SQLite's extended
/// result code where the error came from SQLite itself.
pub assume_specification[ rusqlite::Error::sqlite_extended_error_code ](
    e: &rusqlite::Error,
) -> Option<i32>;

/// Relies on `rusqlite::Connection::execute_batch`: runs the statements of
/// `sql` one after the other.
#[verifier::external_body]
pub(crate) fn run_batch(conn: &mut rusqlite::Connection, sql: &str) -> (r: Result<
    (),
    rusqlite::Error,
>) {
    conn.execute_batch(sql)
}

/// Relies on `rusqlite::Connection::execute`: runs the one statement `sql` and
/// returns how many rows it changed.
#[verifier::external_body]
pub(crate) fn execute(
    conn: &mut rusqlite::Connection,
    sql: &str,
    texts: &Vec<String>,
    ints: &Vec<i64>,
) -> (r: Result<usize, rusqlite::Error>) {
    let args = texts.iter().map(|t| rusqlite::types::Value::from(t.clone())).chain(
        ints.iter().map(|i| rusqlite::types::Value::from(*i)),
    );
    conn.execute(sql, rusqlite::params_from_iter(args))
}

/// Relies on `rusqlite::Connection::last_insert_rowid`: the rowid of the
/// latest successful insert on this connection.
#[verifier::external_body]
pub(crate) fn last_insert_rowid(conn: &rusqlite::Connection) -> (r: i64) {
    conn.last_insert_rowid()
}

/// Relies on `rusqlite::Connection::prepare` and `Statement::query_map`: runs
/// the query `sql` and reads the first four columns of each row as an integer,
/// a text and two integers.
#[verifier::external_body]
pub(crate) fn query_rows(
    conn: &rusqlite::Connection,
    sql: &str,
    texts: &Vec<String>,
    ints: &Vec<i64>,
) -> (r: Result<Vec<(i64, String, i64, i64)>, rusqlite::Error>) {
    let args = texts.iter().map(|t| rusqlite::types::Value::from(t.clone())).chain(
        ints.iter().map(|i| rusqlite::types::Value::from(*i)),
    );
    let mut stmt = conn.prepare(sql)?;
    let rows = stmt.query_map(
        rusqlite::params_from_iter(args),
        |row| Ok((row.get(0)?, row.get(1)?, row.get(2)?, row.get(3)?)),
    )?;
    rows.collect()
}

} // verus!
