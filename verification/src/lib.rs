//! A sequential schema-migration runner for a relational database.
//!
//! The library decides which migrations to roll back and which to apply, and in
//! what order every statement of a run is issued. It never talks to a database
//! itself: a driver issues the statements one by one and reports each outcome.

pub mod error;
pub mod laws;
pub mod ledger;
pub mod migration;
pub mod migration_0_initial;
pub mod plan;
pub mod runner;
pub mod schedule;
pub mod script;

pub use migration::{Build, Migration, MigrationView, Mode};
pub use error::MigrationError;
pub use plan::Operation;
pub use runner::Run;
pub use script::Command;
