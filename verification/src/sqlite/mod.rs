//! The SQL that a SQLite database runs for the models: table creation and
//! alteration along the migration path, searches, deletions and saves.

pub mod order;
pub mod ddl;
pub mod query;
pub mod save;
