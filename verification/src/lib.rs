//! Schema-migration bookkeeping for PostgreSQL.
//!
//! An external runner decides which migrations to apply or revert; the
//! adapter here owns the session, keeps the metadata table of applied
//! versions, and performs each apply or revert as one transaction, so that
//! a migration's effect and its version record commit or roll back together.

pub mod adapter;
mod pg;
pub mod schema;
pub mod sql;
pub mod store;

pub use adapter::AdapterError;
pub use adapter::PostgresAdapter;
pub use adapter::PostgresMigration;
pub use store::Version;
pub use store::VersionStore;
pub use store::is_current_version;
