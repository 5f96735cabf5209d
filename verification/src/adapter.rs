//! The transactional migration adapter.
//!
//! It owns the session for its lifetime, keeps the metadata table of
//! applied versions, and performs each apply or revert as one
//! transaction: the migration's own effect and the version bookkeeping
//! commit together or not at all.

use vstd::prelude::*;

use crate::pg;
use crate::sql;
use crate::store::Version;
use crate::store::VersionStore;

verus! {

/// A migration to be used within a PostgreSQL connection.
///
/// Implementations define the forward and reverse effects through the
/// transaction handle they are given; they must not commit or roll that
/// transaction back themselves — that is the adapter's job alone.
pub trait PostgresMigration {
    /// This migration's ordered, unique identifier.
    fn version(&self) -> Version;

    /// Called when this migration is to be executed. The default is a
    /// no-op success, so the implementation is optional.
    fn up(&self, transaction: &mut postgres::Transaction<'_>) -> (r: Result<(), postgres::Error>)
        default_ensures
            r is Ok,
    {
        Ok(())
    }

    /// Called when this migration is to be reversed. The default is a
    /// no-op success, so the implementation is optional.
    fn down(&self, transaction: &mut postgres::Transaction<'_>) -> (r: Result<(), postgres::Error>)
        default_ensures
            r is Ok,
    {
        Ok(())
    }
}

/// What failed, and in which phase, so a caller can tell its own
/// migration logic's failure apart from a failure of the bookkeeping
/// around it.
#[derive(Debug)]
pub enum AdapterError {
    /// The metadata table name was rejected by validation; nothing was
    /// sent to the database.
    InvalidTableName,
    /// Creating the metadata table failed.
    Setup(postgres::Error),
    /// A version lookup failed.
    Query(postgres::Error),
    /// The migration's own `up` or `down` effect failed; its transaction
    /// was rolled back.
    Effect(postgres::Error),
    /// The version bookkeeping failed — a duplicate-version insert, or
    /// the transaction machinery itself — and the migration's effect was
    /// rolled back with it.
    Bookkeeping(postgres::Error),
}

/// An adapter that allows its migrations to act upon PostgreSQL
/// connection transactions.
pub struct PostgresAdapter<'a> {
    client: &'a mut postgres::Client,
    metadata_table: String,
}

impl<'a> PostgresAdapter<'a> {
    /// The configured metadata table name.
    pub closed spec fn table_name(&self) -> Seq<char> {
        self.metadata_table@
    }

    /// The adapter's invariant: its table name stays a validated
    /// identifier, never raw text spliced into SQL.
    pub open spec fn wf(&self) -> bool {
        sql::is_valid_table_name(self.table_name())
    }

    /// Create a new migrator tied to a PostgreSQL connection. The
    /// metadata table name starts as `schemamama`.
    pub fn new(client: &'a mut postgres::Client) -> (adapter: PostgresAdapter<'a>)
        ensures
            adapter.wf(),
            adapter.table_name() == "schemamama"@,
    {
        let adapter = PostgresAdapter {
            client,
            metadata_table: String::from_str("schemamama"),
        };
        proof {
            reveal_strlit("schemamama");
        }
        adapter
    }

    /// Set a custom metadata table name. A name that is not a valid
    /// identifier is rejected and the configuration is left as it was.
    pub fn set_metadata_table(&mut self, metadata_table: &str) -> (r: Result<(), AdapterError>)
        ensures
            r is Ok ==> final(self).wf(),
            r is Err ==> final(self).wf() == old(self).wf(),
            r is Ok <==> sql::is_valid_table_name(metadata_table@),
            r is Ok ==> final(self).table_name() == metadata_table@,
            r is Err ==> final(self).table_name() == old(self).table_name(),
            r matches Err(e) ==> e is InvalidTableName,
    {
        if sql::check_table_name(metadata_table) {
            self.metadata_table = String::from_str(metadata_table);
            Ok(())
        } else {
            Err(AdapterError::InvalidTableName)
        }
    }

    /// Create the table the adapter requires to keep track of schema
    /// state: `CREATE TABLE IF NOT EXISTS`, so calling this again once it
    /// exists has no further effect and is no error.
    pub fn setup_schema(&mut self) -> (r: Result<(), AdapterError>)
        requires
            old(self).wf(),
        ensures
            final(self).wf(),
            final(self).table_name() == old(self).table_name(),
            r matches Err(e) ==> e is Setup,
    {
        let stmt = sql::create_table_stmt(self.metadata_table.as_str());
        match pg::client_execute(&mut *self.client, stmt.as_str()) {
            Ok(_) => Ok(()),
            Err(e) => Err(AdapterError::Setup(e)),
        }
    }

    /// The latest committed migration state: the maximum recorded
    /// version, or `None` when no version is recorded. The maximum is
    /// computed by the statement itself (`ORDER BY version DESC LIMIT
    /// 1`), never from insertion order.
    pub fn current_version(&mut self) -> (r: Result<Option<Version>, AdapterError>)
        requires
            old(self).wf(),
        ensures
            final(self).wf(),
            final(self).table_name() == old(self).table_name(),
            r matches Err(e) ==> e is Query,
    {
        let stmt = sql::select_max_stmt(self.metadata_table.as_str());
        let rows = match pg::client_query(&mut *self.client, stmt.as_str()) {
            Ok(rows) => rows,
            Err(e) => {
                return Err(AdapterError::Query(e));
            },
        };
        let versions = match read_versions(&rows) {
            Ok(versions) => versions,
            Err(e) => {
                return Err(AdapterError::Query(e));
            },
        };
        Ok(first_version(&versions))
    }

    /// Every recorded version, as a set: the versions that count as
    /// applied. The external runner diffs this against its registered
    /// migrations.
    pub fn migrated_versions(&mut self) -> (r: Result<VersionStore, AdapterError>)
        requires
            old(self).wf(),
        ensures
            final(self).wf(),
            final(self).table_name() == old(self).table_name(),
            r matches Ok(s) ==> s.wf(),
            r matches Err(e) ==> e is Query,
    {
        let stmt = sql::select_all_stmt(self.metadata_table.as_str());
        let rows = match pg::client_query(&mut *self.client, stmt.as_str()) {
            Ok(rows) => rows,
            Err(e) => {
                return Err(AdapterError::Query(e));
            },
        };
        let versions = match read_versions(&rows) {
            Ok(versions) => versions,
            Err(e) => {
                return Err(AdapterError::Query(e));
            },
        };
        Ok(VersionStore::from_rows(&versions))
    }

    /// Apply one migration atomically: begin a transaction, run the
    /// migration's `up`, record its version in the same transaction,
    /// commit. If any step fails the transaction is rolled back, so the
    /// effect and the record never part ways; recording an
    /// already-recorded version fails on the primary key and is surfaced
    /// as a bookkeeping error.
    pub fn apply_migration<M: PostgresMigration>(&mut self, migration: &M) -> (r: Result<
        (),
        AdapterError,
    >)
        requires
            old(self).wf(),
        ensures
            final(self).wf(),
            final(self).table_name() == old(self).table_name(),
            r matches Err(e) ==> (e is Effect || e is Bookkeeping),
    {
        let stmt = sql::insert_stmt(self.metadata_table.as_str());
        let version = migration.version();
        let mut tx = match pg::begin_transaction(&mut *self.client) {
            Ok(tx) => tx,
            Err(e) => {
                return Err(AdapterError::Bookkeeping(e));
            },
        };
        match migration.up(&mut tx) {
            Ok(()) => (),
            Err(e) => {
                let _ = pg::rollback_transaction(tx);
                return Err(AdapterError::Effect(e));
            },
        }
        match pg::transaction_execute_version(&mut tx, stmt.as_str(), version) {
            Ok(_) => (),
            Err(e) => {
                let _ = pg::rollback_transaction(tx);
                return Err(AdapterError::Bookkeeping(e));
            },
        }
        match pg::commit_transaction(tx) {
            Ok(()) => Ok(()),
            Err(e) => Err(AdapterError::Bookkeeping(e)),
        }
    }

    /// Revert one migration atomically: begin a transaction, run the
    /// migration's `down`, delete its version record in the same
    /// transaction, commit. Deleting an absent version affects no row and
    /// is no error, so reverting a never-applied version still runs its
    /// `down` effect and leaves the metadata table as it was.
    pub fn revert_migration<M: PostgresMigration>(&mut self, migration: &M) -> (r: Result<
        (),
        AdapterError,
    >)
        requires
            old(self).wf(),
        ensures
            final(self).wf(),
            final(self).table_name() == old(self).table_name(),
            r matches Err(e) ==> (e is Effect || e is Bookkeeping),
    {
        let stmt = sql::delete_stmt(self.metadata_table.as_str());
        let version = migration.version();
        let mut tx = match pg::begin_transaction(&mut *self.client) {
            Ok(tx) => tx,
            Err(e) => {
                return Err(AdapterError::Bookkeeping(e));
            },
        };
        match migration.down(&mut tx) {
            Ok(()) => (),
            Err(e) => {
                let _ = pg::rollback_transaction(tx);
                return Err(AdapterError::Effect(e));
            },
        }
        match pg::transaction_execute_version(&mut tx, stmt.as_str(), version) {
            Ok(_) => (),
            Err(e) => {
                let _ = pg::rollback_transaction(tx);
                return Err(AdapterError::Bookkeeping(e));
            },
        }
        match pg::commit_transaction(tx) {
            Ok(()) => Ok(()),
            Err(e) => Err(AdapterError::Bookkeeping(e)),
        }
    }
}

/// Read the version column out of every row; the first row that does not
/// hold one surfaces the driver's error.
fn read_versions(rows: &Vec<postgres::Row>) -> (r: Result<Vec<i64>, postgres::Error>)
    ensures
        r is Ok <==> (forall|i: int|
            0 <= i < rows@.len() ==> pg::row_bigints(rows@[i]).dom().contains(0)),
        r matches Ok(versions) ==> versions@.len() == rows@.len() && forall|i: int|
            0 <= i < rows@.len() ==> versions@[i] == pg::row_bigints(rows@[i])[0],
{
    let n = rows.len();
    let mut versions: Vec<i64> = Vec::new();
    let mut i: usize = 0;
    while i < n
        invariant
            n == rows@.len(),
            0 <= i <= n,
            versions@.len() == i,
            forall|j: int| 0 <= j < i ==> #[trigger] pg::row_bigints(rows@[j]).dom().contains(0),
            forall|j: int|
                0 <= j < i ==> versions@[j] == #[trigger] pg::row_bigints(rows@[j])[0],
        decreases n - i,
    {
        match pg::row_version(&rows[i]) {
            Ok(v) => {
                versions.push(v);
                proof {
                    assert(versions@[i as int] == pg::row_bigints(rows@[i as int])[0]);
                }
            },
            Err(e) => {
                proof {
                    assert(!pg::row_bigints(rows@[i as int]).dom().contains(0));
                }
                return Err(e);
            },
        }
        i += 1;
    }
    Ok(versions)
}

/// What a limit-one query's answer means: the single version it returned,
/// or `None` when it returned no row.
fn first_version(versions: &Vec<i64>) -> (c: Option<Version>)
    ensures
        match c {
            Some(v) => versions@.len() > 0 && v == versions@[0],
            None => versions@.len() == 0,
        },
{
    if versions.len() > 0 {
        Some(versions[0])
    } else {
        None
    }
}

} // verus!
