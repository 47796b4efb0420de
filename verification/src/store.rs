//! The store boundary: the only place where the library touches the
//! embedded SQLite engine, through `rusqlite`.
//!
//! Each wrapper makes exactly one kind of call. What a query returns
//! depends on what is in the database on disk, so no wrapper promises
//! anything about the values it hands back: the verified callers state
//! what they do with *every* possible answer.

use vstd::prelude::*;

use crate::entries::ListingRow;

verus! {

/// A `rusqlite` connection handle, opaque to the verifier.
#[verifier::external_type_specification]
#[verifier::external_body]
pub struct ExConnection(rusqlite::Connection);

/// A `rusqlite` error, opaque to the verifier; verified code maps it to
/// [`crate::ops::FsError::StoreUnavailable`].
#[verifier::external_type_specification]
#[verifier::external_body]
pub struct ExSqlError(rusqlite::Error);

/// Relies on `rusqlite::Connection::open_with_flags`: opens the database
/// at `path` read-only and without a shared mutex (each request uses its
/// own short-lived connection), or reports why it cannot be opened.
#[verifier::external_body]
pub fn open_read_only(path: &str) -> Result<rusqlite::Connection, rusqlite::Error> {
    rusqlite::Connection::open_with_flags(
        path,
        rusqlite::OpenFlags::SQLITE_OPEN_NO_MUTEX | rusqlite::OpenFlags::SQLITE_OPEN_READ_ONLY,
    )
}

/// Relies on `rusqlite::Statement::exists` (on a cached prepared
/// statement): whether `sql`, with `value` bound to its one parameter,
/// returns at least one row.
#[verifier::external_body]
pub fn query_exists(
    conn: &rusqlite::Connection,
    sql: &str,
    value: &str,
) -> Result<bool, rusqlite::Error> {
    let mut stmt = conn.prepare_cached(sql)?;
    stmt.exists([value])
}

/// Relies on `rusqlite::Statement::query_map` (on a cached prepared
/// statement): runs `sql` with the strings of `params` bound to its
/// parameters in order, and hands back each row's two nullable text
/// columns, in row order.
#[verifier::external_body]
pub fn query_rows(
    conn: &rusqlite::Connection,
    sql: &str,
    params: &Vec<String>,
) -> Result<Vec<ListingRow>, rusqlite::Error> {
    let mut stmt = conn.prepare_cached(sql)?;
    let rows = stmt.query_map(
        rusqlite::params_from_iter(params.iter()),
        |row| Ok(ListingRow { tag: row.get(0)?, file: row.get(1)? }),
    )?;
    rows.collect()
}

} // verus!
