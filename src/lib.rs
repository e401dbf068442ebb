//! Reconciles a reading list from a library catalog with the rows of a
//! document database, and plans the rows that are missing.
pub mod arguments;
pub mod models;
pub mod reconcile;
pub mod schema;
pub mod rows;
pub mod report;
