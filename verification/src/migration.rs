//! Migration definitions and the builder that assembles them.

use vstd::prelude::*;

verus! {

/// The migration's execution mode.
#[derive(Clone, Copy, PartialEq, Eq, Structural, Debug)]
pub enum Mode {
    /// The migration is stable and ready for deployment.
    Stable,
    /// The migration is still being worked on: every run rolls it back and
    /// applies it again.
    Debug,
    /// The migration is still being worked on and alters existing structures:
    /// every run rolls back all migrations and applies all of them again.
    NuclearDebug,
}

impl Default for Mode {
    fn default() -> (mode: Mode)
        ensures
            mode == Mode::Stable,
    {
        Mode::Stable
    }
}

/// The configuration a program was built in. The two development modes of a
/// migration may only be selected in a debug build.
#[derive(Clone, Copy, PartialEq, Eq, Structural, Debug)]
pub enum Build {
    /// A build for local iteration.
    Debug,
    /// A build for deployment.
    Release,
}

/// A single database migration.
#[derive(Debug)]
pub struct Migration {
    /// The permanent key under which the ledger records the migration.
    pub name: String,
    /// The statements that apply the migration, in execution order.
    pub up: Vec<String>,
    /// The statements that roll the migration back, in execution order.
    pub down: Vec<String>,
    /// How the runner treats the migration.
    pub mode: Mode,
}

/// The mathematical content of a [`Migration`].
pub ghost struct MigrationView {
    pub name: Seq<char>,
    pub up: Seq<Seq<char>>,
    pub down: Seq<Seq<char>>,
    pub mode: Mode,
}

impl MigrationView {
    /// The migration that `Migration::new` builds: nothing to execute yet, and stable.
    pub open spec fn create(name: Seq<char>) -> MigrationView {
        MigrationView { name, up: Seq::empty(), down: Seq::empty(), mode: Mode::Stable }
    }

    /// `statement` becomes the last forward statement.
    pub open spec fn with_up(self, statement: Seq<char>) -> MigrationView {
        MigrationView { up: self.up.push(statement), ..self }
    }

    /// `statement` becomes the first reverse statement.
    pub open spec fn with_down(self, statement: Seq<char>) -> MigrationView {
        MigrationView { down: seq![statement] + self.down, ..self }
    }

    /// The same migration in another mode.
    pub open spec fn with_mode(self, mode: Mode) -> MigrationView {
        MigrationView { mode, ..self }
    }
}

impl View for Migration {
    type V = MigrationView;

    open spec fn view(&self) -> MigrationView {
        MigrationView {
            name: self.name@,
            up: self.up.deep_view(),
            down: self.down.deep_view(),
            mode: self.mode,
        }
    }
}

/// The views of a list of migrations, in list order.
pub open spec fn views(migrations: Seq<Migration>) -> Seq<MigrationView> {
    migrations.map_values(|m: Migration| m@)
}

/// A copy of `source` that holds the same statements in the same order.
fn clone_statements(source: &Vec<String>) -> (copy: Vec<String>)
    ensures
        copy.deep_view() == source.deep_view(),
{
    let mut copy: Vec<String> = Vec::new();
    let mut i: usize = 0;
    while i < source.len()
        invariant
            i <= source.len(),
            copy.len() == i,
            forall|j: int| 0 <= j < i ==> copy[j]@ == source[j]@,
        decreases source.len() - i,
    {
        copy.push(source[i].clone());
        i += 1;
    }
    copy
}

impl Clone for Migration {
    fn clone(&self) -> (copy: Migration)
        ensures
            copy@ == self@,
    {
        Migration {
            name: self.name.clone(),
            up: clone_statements(&self.up),
            down: clone_statements(&self.down),
            mode: self.mode,
        }
    }
}

impl Default for Migration {
    fn default() -> (migration: Migration)
        ensures
            migration@ == MigrationView::create(Seq::empty()),
    {
        let migration = Migration {
            name: String::new(),
            up: Vec::new(),
            down: Vec::new(),
            mode: Mode::Stable,
        };
        assert(migration.up.deep_view() =~= Seq::<Seq<char>>::empty());
        assert(migration.down.deep_view() =~= Seq::<Seq<char>>::empty());
        migration
    }
}

impl Migration {
    /// Create an empty migration. `name` is the unique key under which the
    /// ledger records that the migration has been applied, so it must stay the
    /// same between deployments.
    pub fn new(name: &str) -> (migration: Migration)
        requires
            name@.len() > 0,
        ensures
            migration@ == MigrationView::create(name@),
    {
        let migration = Migration {
            name: name.to_owned(),
            up: Vec::new(),
            down: Vec::new(),
            mode: Mode::Stable,
        };
        assert(migration.up.deep_view() =~= Seq::<Seq<char>>::empty());
        assert(migration.down.deep_view() =~= Seq::<Seq<char>>::empty());
        migration
    }

    /// Add an "up" statement, executed when the migration is applied. Statements
    /// run in the order in which they were added.
    pub fn with_up(self, up: &str) -> (migration: Migration)
        ensures
            migration@ == self@.with_up(up@),
    {
        let mut migration = self;
        migration.up.push(up.to_owned());
        assert(migration.up.deep_view() =~= self.up.deep_view().push(up@));
        migration
    }

    /// Add a "down" statement, executed when the migration is rolled back. It is
    /// placed in front of those added before, so that a rollback undoes the
    /// steps of the migration last to first.
    pub fn with_down(self, down: &str) -> (migration: Migration)
        ensures
            migration@ == self@.with_down(down@),
    {
        let mut migration = self;
        migration.down.insert(0, down.to_owned());
        assert(migration.down.deep_view() =~= seq![down@] + self.down.deep_view());
        migration
    }

    /// Mark this migration as executing in debug mode. Only a debug build may
    /// do so.
    pub fn debug(self, build: Build) -> (migration: Migration)
        requires
            build == Build::Debug,
        ensures
            migration@ == self@.with_mode(Mode::Debug),
    {
        let mut migration = self;
        migration.mode = Mode::Debug;
        migration
    }

    /// Mark this migration as executing in "nuclear" debug mode, which makes a
    /// run roll back and replay every migration. Only a debug build may do so.
    pub fn nuclear_debug(self, build: Build) -> (migration: Migration)
        requires
            build == Build::Debug,
        ensures
            migration@ == self@.with_mode(Mode::NuclearDebug),
    {
        let mut migration = self;
        migration.mode = Mode::NuclearDebug;
        migration
    }
}

} // verus!
