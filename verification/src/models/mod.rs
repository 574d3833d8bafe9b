//! Models: the columns of a table, the migration path that defines them, and
//! the queries that search a table.

pub mod column;
pub mod migration;
pub mod model;
pub mod search;
pub mod group;
pub mod json;
