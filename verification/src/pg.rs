//! The trusted boundary to the PostgreSQL driver.
//!
//! Each wrapper makes exactly one driver call. What the driver returns
//! depends on the database the session talks to, so the contracts claim
//! nothing about the values that come back: the verified code around the
//! wrappers states what holds whatever the outcome was.

use vstd::prelude::*;

verus! {

/// The session type of the driver; the adapter borrows one for its
/// lifetime.
#[verifier::external_type_specification]
#[verifier::external_body]
pub struct ExClient(postgres::Client);

/// One open transaction on a session; it ends, by commit or rollback,
/// before the borrow it holds ends.
#[verifier::external_type_specification]
#[verifier::external_body]
pub struct ExTransaction<'a>(postgres::Transaction<'a>);

/// One row of a query result; opaque, read through `row_version`.
#[verifier::external_type_specification]
#[verifier::external_body]
pub struct ExRow(postgres::Row);

/// The driver's error type, carried inside `AdapterError`.
#[verifier::external_type_specification]
#[verifier::external_body]
pub struct ExPgError(postgres::Error);

/// Relies on postgres::Client::execute: runs one parameterless statement
/// on the session, outside any explicit transaction.
#[verifier::external_body]
pub(crate) fn client_execute(client: &mut postgres::Client, stmt: &str) -> (r: Result<
    u64,
    postgres::Error,
>) {
    client.execute(stmt, &[])
}

/// Relies on postgres::Client::query: runs one parameterless query on the
/// session and hands back every row it returned.
#[verifier::external_body]
pub(crate) fn client_query(client: &mut postgres::Client, stmt: &str) -> (r: Result<
    Vec<postgres::Row>,
    postgres::Error,
>) {
    client.query(stmt, &[])
}

/// What a row holds: the partial map from column index to value, at the
/// columns that hold a BIGINT readable as `i64`. A `Row` is immutable,
/// so this is a function of the row alone.
pub uninterp spec fn row_bigints(row: postgres::Row) -> Map<int, i64>;

/// Relies on postgres::Row::try_get: reads column 0 of the row as a
/// BIGINT; a row without one surfaces the driver's error rather than
/// panicking.
#[verifier::external_body]
pub(crate) fn row_version(row: &postgres::Row) -> (r: Result<i64, postgres::Error>)
    ensures
        r matches Ok(v) ==> row_bigints(*row).dom().contains(0) && v == row_bigints(*row)[0],
        r is Err ==> !row_bigints(*row).dom().contains(0),
{
    row.try_get(0)
}

/// Relies on postgres::Client::transaction: begins a transaction on the
/// session.
#[verifier::external_body]
pub(crate) fn begin_transaction<'a>(client: &'a mut postgres::Client) -> (r: Result<
    postgres::Transaction<'a>,
    postgres::Error,
>) {
    client.transaction()
}

/// Relies on postgres::Transaction::execute: runs one statement with one
/// BIGINT parameter inside the open transaction.
#[verifier::external_body]
pub(crate) fn transaction_execute_version(
    tx: &mut postgres::Transaction<'_>,
    stmt: &str,
    version: i64,
) -> (r: Result<u64, postgres::Error>) {
    tx.execute(stmt, &[&version])
}

/// Relies on postgres::Transaction::commit: asks the database to make
/// the transaction's effects durable; the result is the driver's word on
/// whether the commit was acknowledged.
#[verifier::external_body]
pub(crate) fn commit_transaction(tx: postgres::Transaction<'_>) -> (r: Result<
    (),
    postgres::Error,
>) {
    tx.commit()
}

/// Relies on postgres::Transaction::rollback: discards the transaction's
/// effects. Dropping the handle rolls back as well; this form exists so
/// that the rollback is explicit in the code that decides it.
#[verifier::external_body]
pub(crate) fn rollback_transaction(tx: postgres::Transaction<'_>) -> (r: Result<
    (),
    postgres::Error,
>) {
    tx.rollback()
}

} // verus!
