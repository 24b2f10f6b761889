//! A model of the ledger of applied migrations: what the commands of a run
//! do to its records, and what of a run is committed when a command fails.

use crate::migration::MigrationView;
use crate::plan::OperationView;
use crate::schedule::{expanded, transactions};
use crate::script::{executions, CommandView};
use vstd::prelude::*;
use vstd::seq_lib::lemma_flatten_concat;

verus! {

/// The records of a ledger that held `ledger` after `commands` were carried
/// out and committed. Only the bookkeeping of a run is modelled: `Record`
/// inserts a name and `Forget` deletes one. What the statements of the
/// migrations themselves do is not modelled, so the model does not follow the
/// bootstrap migration's rollback, which drops the ledger with all its records.
pub open spec fn ledger_after(ledger: Set<Seq<char>>, commands: Seq<CommandView>) -> Set<Seq<char>>
    decreases commands.len(),
{
    if commands.len() == 0 {
        ledger
    } else {
        let before = ledger_after(ledger, commands.drop_last());
        match commands.last() {
            CommandView::Record(name) => before.insert(name),
            CommandView::Forget(name) => before.remove(name),
            _ => before,
        }
    }
}

/// The part of `commands` that is durable when all of them have succeeded and
/// nothing more is issued: everything up to the last commit. What follows the
/// last commit belongs to a transaction that was never committed, and the
/// database discards it.
pub open spec fn committed(commands: Seq<CommandView>) -> Seq<CommandView>
    decreases commands.len(),
{
    if commands.len() == 0 || commands.last() == CommandView::Commit {
        commands
    } else {
        committed(commands.drop_last())
    }
}

/// Whether no command touches the records of the ledger.
pub open spec fn keeps_records(commands: Seq<CommandView>) -> bool {
    forall|k: int|
        0 <= k < commands.len() ==> !((#[trigger] commands[k]) is Record) && !(commands[k] is Forget)
}

/// Whether no command is a commit.
pub open spec fn commits_nothing(commands: Seq<CommandView>) -> bool {
    forall|k: int| 0 <= k < commands.len() ==> (#[trigger] commands[k]) != CommandView::Commit
}

/// Whether no command opens a transaction.
pub open spec fn begins_nothing(commands: Seq<CommandView>) -> bool {
    forall|k: int| 0 <= k < commands.len() ==> (#[trigger] commands[k]) != CommandView::Begin
}

/// Whether `script` is one whole transaction and nothing else: it opens with
/// its one `Begin` and closes with its one `Commit`.
pub open spec fn is_transaction(script: Seq<CommandView>) -> bool {
    &&& script.len() >= 2
    &&& script.first() == CommandView::Begin
    &&& script.last() == CommandView::Commit
    &&& begins_nothing(script.drop_first())
    &&& commits_nothing(script.drop_last())
}

/// Carrying out `first + second` is carrying out `first`, then `second`.
pub proof fn lemma_ledger_after_concat(
    ledger: Set<Seq<char>>,
    first: Seq<CommandView>,
    second: Seq<CommandView>,
)
    ensures
        ledger_after(ledger, first + second) == ledger_after(ledger_after(ledger, first), second),
    decreases second.len(),
{
    if second.len() > 0 {
        assert((first + second).drop_last() =~= first + second.drop_last());
        lemma_ledger_after_concat(ledger, first, second.drop_last());
    }
}

/// Commands that touch no record leave the ledger as it was.
pub proof fn lemma_ledger_after_untouched(ledger: Set<Seq<char>>, commands: Seq<CommandView>)
    requires
        keeps_records(commands),
    ensures
        ledger_after(ledger, commands) == ledger,
    decreases commands.len(),
{
    if commands.len() > 0 {
        assert(keeps_records(commands.drop_last()));
        lemma_ledger_after_untouched(ledger, commands.drop_last());
    }
}

/// Applying a migration records its name.
pub proof fn lemma_ledger_after_perform(ledger: Set<Seq<char>>, migration: MigrationView)
    ensures
        ledger_after(ledger, migration.perform()) == ledger.insert(migration.name),
{
    let body = seq![CommandView::Begin] + executions(migration.up);
    let close = seq![CommandView::Record(migration.name), CommandView::Commit];
    assert(migration.perform() =~= body + close);
    lemma_ledger_after_concat(ledger, body, close);
    lemma_ledger_after_untouched(ledger, body);
    reveal_with_fuel(ledger_after, 3);
}

/// Rolling a migration back deletes its record, unless it is the bootstrap
/// migration: then the records stay as they are.
pub proof fn lemma_ledger_after_undo(ledger: Set<Seq<char>>, migration: MigrationView)
    ensures
        ledger_after(ledger, migration.undo()) == if migration.forgets_record() {
            ledger.remove(migration.name)
        } else {
            ledger
        },
{
    let body = seq![CommandView::Begin] + executions(migration.down);
    let close = if migration.forgets_record() {
        seq![CommandView::Forget(migration.name), CommandView::Commit]
    } else {
        seq![CommandView::Commit]
    };
    assert(migration.undo() =~= body + close);
    lemma_ledger_after_concat(ledger, body, close);
    lemma_ledger_after_untouched(ledger, body);
    reveal_with_fuel(ledger_after, 3);
}

/// Applying a migration is one transaction, and so is rolling it back.
pub proof fn lemma_scripts_are_transactions(migration: MigrationView)
    ensures
        is_transaction(migration.perform()),
        is_transaction(migration.undo()),
{
    let perform = migration.perform();
    assert(begins_nothing(perform.drop_first()));
    assert(commits_nothing(perform.drop_last()));
    let undo = migration.undo();
    assert(begins_nothing(undo.drop_first()));
    assert(commits_nothing(undo.drop_last()));
}

/// Commands without a commit after `first` add nothing durable to it.
pub proof fn lemma_committed_ignores_open_transaction(
    first: Seq<CommandView>,
    second: Seq<CommandView>,
)
    requires
        commits_nothing(second),
    ensures
        committed(first + second) == committed(first),
    decreases second.len(),
{
    if second.len() > 0 {
        assert((first + second).drop_last() =~= first + second.drop_last());
        assert(commits_nothing(second.drop_last()));
        lemma_committed_ignores_open_transaction(first, second.drop_last());
    }
}

/// A run that has carried out whole transactions only has committed all of it.
pub proof fn lemma_whole_transactions_are_committed(
    migrations: Seq<MigrationView>,
    operations: Seq<OperationView>,
)
    ensures
        committed(expanded(migrations, operations)) == expanded(migrations, operations),
{
    if operations.len() > 0 {
        let whole = transactions(migrations, operations);
        assert(whole =~= whole.drop_last() + seq![whole.last()]);
        lemma_flatten_concat(whole.drop_last(), seq![whole.last()]);
        seq![whole.last()].lemma_flatten_one_element();
        lemma_scripts_are_transactions(migrations[operations.last().index()]);
    }
}

} // verus!
