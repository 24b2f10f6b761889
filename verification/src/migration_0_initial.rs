//! The bootstrap migration, which creates the ledger of applied migrations.

use crate::migration::{Migration, MigrationView};
use vstd::prelude::*;

verus! {

/// The name under which the ledger records the bootstrap migration.
pub const NAME: &'static str = "initial";

/// Creates the ledger table.
pub const CREATE_LEDGER: &'static str = r#"
        CREATE TABLE migrations (
            name TEXT NOT NULL PRIMARY KEY,
            executed_at TIMESTAMPTZ NOT NULL DEFAULT now()
        )
        "#;

/// Drops the ledger table, and with it every record.
pub const DROP_LEDGER: &'static str = r#"
        DROP TABLE IF EXISTS migrations
        "#;

/// What [`migration`] builds.
pub open spec fn bootstrap() -> MigrationView {
    MigrationView::create(NAME@).with_up(CREATE_LEDGER@).with_down(DROP_LEDGER@)
}

/// The bootstrap migration: it is always first in a run, and a rollback never
/// deletes its ledger record.
pub fn migration() -> (migration: Migration)
    ensures
        migration@ == bootstrap(),
{
    proof {
        reveal_strlit("initial");
    }
    Migration::new(NAME).with_up(CREATE_LEDGER).with_down(DROP_LEDGER)
}

} // verus!
