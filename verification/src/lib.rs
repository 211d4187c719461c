//! An embedded document store: a database is a named collection of tables,
//! a table a schema and the JSON-shaped records stored under it, and the
//! whole database is kept as one JSON document.
//!
//! The library works on snapshots held in memory. Reading the backing file
//! before an operation and writing it back afterwards is the caller's part.

pub mod columns;
pub mod database;
pub mod document;
pub mod errors;
pub mod json;
pub mod listing;
pub mod lookup;
pub mod query;
pub mod row;
pub mod table;

pub use columns::{Column, Columns};
pub use database::{Database, Stored};
pub use errors::{DatabaseError, SchemaError};
pub use json::{Json, Number};
pub use listing::Listing;
pub use query::{ForeignKeyConstraint, Operation, Query};
pub use row::Row;
pub use table::Table;
