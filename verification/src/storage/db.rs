//! The calls into the embedded database. None of them promises anything
//! about what a statement does: that depends on what the database holds.
//! Only the two tests on an error say what they return, since that depends
//! on the error alone.

use vstd::prelude::*;

verus! {

/// `rusqlite::Error`, which says why a statement failed. It is looked into
/// only by [`is_constraint_violation`] and [`is_no_rows`].
#[verifier::external_type_specification]
#[verifier::external_body]
pub struct ExSqlError(rusqlite::Error);

/// `rusqlite::Connection`, the handle of the open database.
#[verifier::external_type_specification]
#[verifier::external_body]
pub struct ExConnection(rusqlite::Connection);

/// `rusqlite::Transaction`, a transaction that is open on a connection.
#[verifier::external_type_specification]
#[verifier::external_body]
pub struct ExTransaction<'conn>(rusqlite::Transaction<'conn>);

/// Opens the database file at `path` with `rusqlite::Connection::open`.
#[verifier::external_body]
pub(crate) fn open(path: &str) -> (r: Result<rusqlite::Connection, rusqlite::Error>) {
    rusqlite::Connection::open(path)
}

/// Sets a session option with `rusqlite::Connection::pragma_update`.
#[verifier::external_body]
pub(crate) fn pragma_update(conn: &rusqlite::Connection, name: &str, value: &str) -> (r: Result<
    (),
    rusqlite::Error,
>) {
    conn.pragma_update(None, name, value)
}

/// Runs a statement without parameters with `rusqlite::Connection::execute`.
#[verifier::external_body]
pub(crate) fn execute(conn: &rusqlite::Connection, sql: &str) -> (r: Result<(), rusqlite::Error>) {
    conn.execute(sql, []).map(|_| ())
}

/// Runs a statement with text parameters with
/// `rusqlite::Connection::query_row` and reads an id, a path and a type
/// from the first row it returns.
#[verifier::external_body]
pub(crate) fn query_container(conn: &rusqlite::Connection, sql: &str, params: &Vec<String>) -> (r:
    Result<(i64, String, String), rusqlite::Error>) {
    conn.query_row(
        sql,
        rusqlite::params_from_iter(params.iter()),
        |row| Ok((row.get(0)?, row.get(1)?, row.get(2)?)),
    )
}

/// Runs a statement with text parameters with
/// `rusqlite::Connection::query_row` and reads an id from the first row it
/// returns.
#[verifier::external_body]
pub(crate) fn query_id(conn: &rusqlite::Connection, sql: &str, params: &Vec<String>) -> (r: Result<
    i64,
    rusqlite::Error,
>) {
    conn.query_row(sql, rusqlite::params_from_iter(params.iter()), |row| row.get(0))
}

/// Inserts a document row with `rusqlite::Connection::execute`.
#[verifier::external_body]
pub(crate) fn insert_document(
    conn: &rusqlite::Connection,
    sql: &str,
    filename: &str,
    extension: Option<&str>,
    status: &str,
    container_id: Option<i64>,
) -> (r: Result<(), rusqlite::Error>) {
    conn.execute(sql, (filename, extension, status, container_id)).map(|_| ())
}

/// The id of the row that was last inserted on this connection, as
/// `rusqlite::Connection::last_insert_rowid` reports it.
#[verifier::external_body]
pub(crate) fn last_insert_rowid(conn: &rusqlite::Connection) -> (id: i64) {
    conn.last_insert_rowid()
}

/// Inserts a full-text row with `rusqlite::Connection::execute`.
#[verifier::external_body]
pub(crate) fn insert_index(
    conn: &rusqlite::Connection,
    sql: &str,
    document_id: i64,
    content: &str,
    description: &str,
) -> (r: Result<(), rusqlite::Error>) {
    conn.execute(sql, (document_id, content, description)).map(|_| ())
}

/// Starts a transaction with `rusqlite::Connection::transaction`. A
/// transaction that is dropped without a commit is rolled back.
#[verifier::external_body]
pub(crate) fn begin<'a>(conn: &'a mut rusqlite::Connection) -> (r: Result<
    rusqlite::Transaction<'a>,
    rusqlite::Error,
>) {
    conn.transaction()
}

/// The connection that a transaction runs on.
#[verifier::external_body]
pub(crate) fn connection_of<'a>(tx: &'a rusqlite::Transaction<'_>) -> (conn: &'a rusqlite::Connection) {
    tx
}

/// Commits with `rusqlite::Transaction::commit`.
#[verifier::external_body]
pub(crate) fn commit(tx: rusqlite::Transaction<'_>) -> (r: Result<(), rusqlite::Error>) {
    tx.commit()
}

/// Whether a database error is a violated constraint: a `SqliteFailure`
/// whose code is `ConstraintViolation`.
pub uninterp spec fn constraint_violated(error: rusqlite::Error) -> bool;

/// Whether a database error says that a query returned no rows: the
/// variant `QueryReturnedNoRows`.
pub uninterp spec fn no_rows(error: rusqlite::Error) -> bool;

/// Tells a violated constraint (`SqliteFailure` with the code
/// `ConstraintViolation`) from every other database error. The answer
/// depends on the error alone and is named by [`constraint_violated`].
#[verifier::external_body]
pub(crate) fn is_constraint_violation(error: &rusqlite::Error) -> (b: bool)
    ensures
        b == constraint_violated(*error),
{
    match error {
        rusqlite::Error::SqliteFailure(e, _) => e.code == rusqlite::ErrorCode::ConstraintViolation,
        _ => false,
    }
}

/// Tells a query that returned no rows (`QueryReturnedNoRows`) from every
/// other database error. The answer depends on the error alone and is
/// named by [`no_rows`].
#[verifier::external_body]
pub(crate) fn is_no_rows(error: &rusqlite::Error) -> (b: bool)
    ensures
        b == no_rows(*error),
{
    match error {
        rusqlite::Error::QueryReturnedNoRows => true,
        _ => false,
    }
}

} // verus!
