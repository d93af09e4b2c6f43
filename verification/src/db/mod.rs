//! The database side: connection settings, the tree of databases, schemas and tables,
//! and the rows that queries answer.
pub mod config;
pub mod connection;
pub mod queries;
pub mod tree;
pub mod types;
