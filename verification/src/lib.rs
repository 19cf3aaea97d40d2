//! A versioned, reversible schema-migration runner.
//!
//! The crate keeps the decisions of a migration tool apart from the database
//! that carries them out: which migrations are pending, in which order they
//! may run, which one is reverted next, and what each one does to a schema.

pub mod name;
pub mod schema;
pub mod operation;
pub mod catalog;
pub mod migration;
pub mod error;
pub mod ledger;
pub mod runner;
pub mod backend;
pub mod laws;
pub mod statement;
pub mod session;
pub mod m20251223_125421_create_venue;
pub mod m20220101_000001_create_event;
