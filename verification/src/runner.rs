//! A run of migrations as a state machine: the library names the next
//! command, the driver issues it against the database and reports the outcome.

use crate::error::MigrationError;
use crate::migration::{views, Migration, MigrationView};
use crate::migration_0_initial::{bootstrap, migration};
use crate::schedule::{expand, scheduled};
use crate::script::{command_views, Command, CommandView};
use vstd::prelude::*;

verus! {

/// The full list of a run: the bootstrap migration, then the supplied
/// migrations in their order.
pub open spec fn with_bootstrap(supplied: Seq<MigrationView>) -> Seq<MigrationView> {
    seq![bootstrap()] + supplied
}

/// Every command of a run over the supplied migrations, in order, when the
/// ledger holds `applied` at its start.
pub open spec fn run_script(supplied: Seq<MigrationView>, applied: Set<Seq<char>>) -> Seq<
    CommandView,
> {
    scheduled(with_bootstrap(supplied), applied)
}

/// The names that a run takes as applied, given the outcome of reading the
/// ledger: those that were read, and none where the ledger could not be read.
pub open spec fn names_read(ledger: Result<Vec<String>, sqlx::Error>) -> Set<Seq<char>> {
    match ledger {
        Ok(names) => names.deep_view().to_set(),
        Err(_) => Set::empty(),
    }
}

/// A run in progress.
pub struct Run {
    commands: Vec<Command>,
    succeeded: usize,
    halted: bool,
}

/// The mathematical content of a [`Run`].
pub ghost struct RunView {
    /// Every command of the run, in order.
    pub script: Seq<CommandView>,
    /// How many commands the database has carried out.
    pub succeeded: nat,
    /// Whether a command has failed.
    pub halted: bool,
}

impl RunView {
    /// A run of which no command has been issued yet.
    pub open spec fn start(script: Seq<CommandView>) -> RunView {
        RunView { script, succeeded: 0, halted: false }
    }

    /// The command to issue next. There is none once a command has failed or
    /// all have succeeded.
    pub open spec fn pending(self) -> Option<CommandView> {
        if !self.halted && self.succeeded < self.script.len() {
            Some(self.script[self.succeeded as int])
        } else {
            None
        }
    }

    /// Whether every command of the run has succeeded.
    pub open spec fn finished(self) -> bool {
        !self.halted && self.succeeded == self.script.len()
    }

    /// The run after the pending command has succeeded.
    pub open spec fn advanced(self) -> RunView {
        RunView { succeeded: self.succeeded + 1, ..self }
    }

    /// The run after the pending command has failed.
    pub open spec fn stopped(self) -> RunView {
        RunView { halted: true, ..self }
    }

    /// The commands that the database has carried out, in order.
    pub open spec fn carried_out(self) -> Seq<CommandView> {
        self.script.take(self.succeeded as int)
    }
}

impl View for Run {
    type V = RunView;

    closed spec fn view(&self) -> RunView {
        RunView {
            script: command_views(self.commands@),
            succeeded: self.succeeded as nat,
            halted: self.halted,
        }
    }
}

impl Run {
    #[verifier::type_invariant]
    spec fn well_formed(self) -> bool {
        self.succeeded <= self.commands.len()
    }

    /// The command to issue next, if the run goes on.
    pub fn pending(&self) -> (command: Option<&Command>)
        ensures
            match command {
                Some(next) => self@.pending() == Some(next@),
                None => self@.pending() is None,
            },
    {
        proof {
            use_type_invariant(self);
        }
        if !self.halted && self.succeeded < self.commands.len() {
            Some(&self.commands[self.succeeded])
        } else {
            None
        }
    }

    /// Every command of the run, in order, whether issued yet or not.
    pub fn commands(&self) -> (commands: &Vec<Command>)
        ensures
            command_views(commands@) == self@.script,
    {
        &self.commands
    }

    /// How many commands the database has carried out. They are the first
    /// commands of the run, and no command after them has been issued with
    /// success.
    pub fn succeeded(&self) -> (count: usize)
        ensures
            count == self@.succeeded,
            count <= self@.script.len(),
    {
        proof {
            use_type_invariant(self);
        }
        self.succeeded
    }

    /// Whether every command of the run has succeeded.
    pub fn is_finished(&self) -> (finished: bool)
        ensures
            finished == self@.finished(),
    {
        proof {
            use_type_invariant(self);
        }
        !self.halted && self.succeeded == self.commands.len()
    }

    /// Takes note of what became of the pending command. After a success the
    /// run goes on with the next command. After a failure the run is over: no
    /// command is pending any more, and the error names the statement that
    /// failed together with what the driver reported.
    pub fn record(&mut self, outcome: Result<(), sqlx::Error>) -> (result: Result<
        (),
        MigrationError,
    >)
        requires
            old(self)@.pending() is Some,
        ensures
            match outcome {
                Ok(_) => result is Ok && final(self)@ == old(self)@.advanced(),
                Err(error) => {
                    &&& final(self)@ == old(self)@.stopped()
                    &&& result matches Err(failure) && failure.error == error && failure.statement@
                        == old(self)@.pending()->0.statement()
                },
            },
    {
        proof {
            use_type_invariant(&*self);
        }
        match outcome {
            Ok(_) => {
                self.succeeded = self.succeeded + 1;
                Ok(())
            },
            Err(error) => {
                let statement = self.commands[self.succeeded].statement();
                self.halted = true;
                Err(MigrationError { statement, error })
            },
        }
    }
}

impl Migration {
    /// Starts a run that brings the database to "fully applied": the bootstrap
    /// migration first, then the supplied migrations in their order.
    /// `ledger` is the outcome of reading the names of the recorded migrations
    /// with [`SELECT_RECORDS`](crate::script::SELECT_RECORDS). A failure to
    /// read them is no error of the run: on a fresh database the ledger does
    /// not exist yet, and the run takes no migration as applied.
    pub fn run_all(supplied: Vec<Migration>, ledger: Result<Vec<String>, sqlx::Error>) -> (run: Run)
        ensures
            run@ == RunView::start(run_script(views(supplied@), names_read(ledger))),
    {
        let mut supplied = supplied;
        let ghost given = views(supplied@);
        let mut migrations: Vec<Migration> = Vec::new();
        migrations.push(migration());
        migrations.append(&mut supplied);
        assert(views(migrations@) =~= with_bootstrap(given));
        let applied = match ledger {
            Ok(names) => names,
            Err(_) => Vec::new(),
        };
        assert(applied.deep_view().to_set() =~= names_read(ledger));
        let operations = Migration::plan(&migrations, &applied);
        let commands = expand(&migrations, &operations);
        Run { commands, succeeded: 0, halted: false }
    }
}

} // verus!
