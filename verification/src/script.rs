//! The commands that a driver issues against the database, and the two
//! transactions that a migration consists of.

use crate::migration::{Migration, MigrationView};
use crate::migration_0_initial::NAME;
use vstd::prelude::*;

verus! {

/// The statement reported when a transaction cannot be opened.
pub const BEGIN_TRANSACTION: &'static str = "BEGIN TRANSACTION";

/// The statement reported when a transaction cannot be committed.
pub const COMMIT_TRANSACTION: &'static str = "COMMIT TRANSACTION";

/// Inserts the ledger record of the migration whose name is bound to `$1`.
pub const INSERT_RECORD: &'static str = "INSERT INTO migrations (name) VALUES ($1)";

/// Deletes the ledger record of the migration whose name is bound to `$1`.
pub const DELETE_RECORD: &'static str = "DELETE FROM migrations WHERE name = $1";

/// Reads the names of all recorded migrations.
pub const SELECT_RECORDS: &'static str = "SELECT name FROM migrations";

/// One request to the database.
#[derive(Debug, PartialEq, Eq)]
pub enum Command {
    /// Open a transaction.
    Begin,
    /// Execute a statement of a migration inside the open transaction.
    Execute(String),
    /// Insert the ledger record of the named migration inside the open transaction.
    Record(String),
    /// Delete the ledger record of the named migration inside the open transaction.
    Forget(String),
    /// Commit the open transaction.
    Commit,
}

/// The mathematical content of a [`Command`].
pub ghost enum CommandView {
    Begin,
    Execute(Seq<char>),
    Record(Seq<char>),
    Forget(Seq<char>),
    Commit,
}

impl CommandView {
    /// The statement by which a failure of the command is reported.
    pub open spec fn statement(self) -> Seq<char> {
        match self {
            CommandView::Begin => BEGIN_TRANSACTION@,
            CommandView::Execute(text) => text,
            CommandView::Record(_) => INSERT_RECORD@,
            CommandView::Forget(_) => DELETE_RECORD@,
            CommandView::Commit => COMMIT_TRANSACTION@,
        }
    }
}

impl View for Command {
    type V = CommandView;

    open spec fn view(&self) -> CommandView {
        match self {
            Command::Begin => CommandView::Begin,
            Command::Execute(text) => CommandView::Execute(text@),
            Command::Record(name) => CommandView::Record(name@),
            Command::Forget(name) => CommandView::Forget(name@),
            Command::Commit => CommandView::Commit,
        }
    }
}

impl Clone for Command {
    fn clone(&self) -> (copy: Command)
        ensures
            copy@ == self@,
    {
        match self {
            Command::Begin => Command::Begin,
            Command::Execute(text) => Command::Execute(text.clone()),
            Command::Record(name) => Command::Record(name.clone()),
            Command::Forget(name) => Command::Forget(name.clone()),
            Command::Commit => Command::Commit,
        }
    }
}

impl Command {
    /// The statement by which a failure of the command is reported: the text
    /// of a migration's own statement, or the fixed text of a bookkeeping step.
    pub fn statement(&self) -> (text: String)
        ensures
            text@ == self@.statement(),
    {
        match self {
            Command::Begin => BEGIN_TRANSACTION.to_owned(),
            Command::Execute(text) => text.clone(),
            Command::Record(_) => INSERT_RECORD.to_owned(),
            Command::Forget(_) => DELETE_RECORD.to_owned(),
            Command::Commit => COMMIT_TRANSACTION.to_owned(),
        }
    }
}

/// The views of a list of commands, in list order.
pub open spec fn command_views(commands: Seq<Command>) -> Seq<CommandView> {
    commands.map_values(|c: Command| c@)
}

/// One `Execute` command for each statement, in order.
pub open spec fn executions(statements: Seq<Seq<char>>) -> Seq<CommandView> {
    statements.map_values(|text: Seq<char>| CommandView::Execute(text))
}

impl MigrationView {
    /// The transaction that applies the migration: every "up" statement in
    /// order, then the ledger record, then the commit.
    pub open spec fn perform(self) -> Seq<CommandView> {
        seq![CommandView::Begin] + executions(self.up) + seq![
            CommandView::Record(self.name),
            CommandView::Commit,
        ]
    }

    /// Whether a rollback of the migration deletes its ledger record. The
    /// bootstrap migration's rollback drops the ledger itself, so its record is
    /// never deleted.
    pub open spec fn forgets_record(self) -> bool {
        self.name != NAME@
    }

    /// The transaction that rolls the migration back: every "down" statement
    /// in order, then the deletion of the ledger record unless the migration is
    /// the bootstrap, then the commit.
    pub open spec fn undo(self) -> Seq<CommandView> {
        seq![CommandView::Begin] + executions(self.down) + (if self.forgets_record() {
            seq![CommandView::Forget(self.name)]
        } else {
            Seq::empty()
        }) + seq![CommandView::Commit]
    }
}

/// Appends one `Execute` command for each statement to `script`.
fn push_executions(script: &mut Vec<Command>, statements: &Vec<String>)
    ensures
        command_views(final(script)@) == command_views(old(script)@) + executions(
            statements.deep_view(),
        ),
{
    let ghost before = command_views(script@);
    let mut i: usize = 0;
    while i < statements.len()
        invariant
            i <= statements.len(),
            command_views(script@) == before + executions(statements.deep_view().take(i as int)),
        decreases statements.len() - i,
    {
        let ghost previous = command_views(script@);
        script.push(Command::Execute(statements[i].clone()));
        assert(command_views(script@) =~= previous.push(
            CommandView::Execute(statements[i as int]@),
        ));
        i += 1;
    }
}

/// Whether `name` is the name of the bootstrap migration.
pub fn is_bootstrap(name: &String) -> (hit: bool)
    ensures
        hit == (name@ == NAME@),
{
    let bootstrap = NAME.to_owned();
    *name == bootstrap
}

impl Migration {
    /// The commands of the transaction that applies the migration.
    pub fn perform(&self) -> (script: Vec<Command>)
        ensures
            command_views(script@) == self@.perform(),
    {
        let mut script: Vec<Command> = Vec::new();
        script.push(Command::Begin);
        push_executions(&mut script, &self.up);
        let ghost body = command_views(script@);
        script.push(Command::Record(self.name.clone()));
        script.push(Command::Commit);
        assert(command_views(script@) =~= body + seq![
            CommandView::Record(self.name@),
            CommandView::Commit,
        ]);
        script
    }

    /// The commands of the transaction that rolls the migration back.
    pub fn undo(&self) -> (script: Vec<Command>)
        ensures
            command_views(script@) == self@.undo(),
    {
        let mut script: Vec<Command> = Vec::new();
        script.push(Command::Begin);
        push_executions(&mut script, &self.down);
        let ghost body = command_views(script@);
        // Only delete the record if this is not the bootstrap migration.
        if !is_bootstrap(&self.name) {
            script.push(Command::Forget(self.name.clone()));
            script.push(Command::Commit);
            assert(command_views(script@) =~= body + seq![CommandView::Forget(self.name@)] + seq![
                CommandView::Commit,
            ]);
        } else {
            script.push(Command::Commit);
            assert(command_views(script@) =~= body + Seq::<CommandView>::empty() + seq![
                CommandView::Commit,
            ]);
        }
        script
    }
}

} // verus!
