//! An object-relational layer in the spirit of Django: models describe their
//! table through a migration path, queries are built from constraints and
//! options, and the SQL that a SQLite database runs is produced from them.
//! Background work is handed to a pool of workers whose bookkeeping lives
//! in [`tasks`].

pub mod text;
pub mod models;
pub mod sqlite;
pub mod database;
pub mod tasks;
pub mod laws;
