//! The commands of a whole run, in the order in which they are issued.

use crate::migration::{views, Migration, MigrationView};
use crate::plan::{in_range, operation_views, planned, Operation, OperationView};
use crate::script::{command_views, Command, CommandView};
use vstd::prelude::*;
use vstd::seq_lib::lemma_flatten_concat;

verus! {

/// The transaction that an operation stands for.
pub open spec fn transaction(migrations: Seq<MigrationView>, operation: OperationView) -> Seq<
    CommandView,
> {
    match operation {
        OperationView::Undo(index) => migrations[index].undo(),
        OperationView::Perform(index) => migrations[index].perform(),
    }
}

/// The transactions that a list of operations stands for, one after the other.
pub open spec fn transactions(
    migrations: Seq<MigrationView>,
    operations: Seq<OperationView>,
) -> Seq<Seq<CommandView>> {
    operations.map_values(|operation: OperationView| transaction(migrations, operation))
}

/// The commands of a list of operations: those of the first operation's
/// transaction, then those of the second, and so on.
pub open spec fn expanded(migrations: Seq<MigrationView>, operations: Seq<OperationView>) -> Seq<
    CommandView,
> {
    transactions(migrations, operations).flatten()
}

/// Every command of a run over `migrations`, in order, when the ledger holds
/// `applied` at its start.
pub open spec fn scheduled(migrations: Seq<MigrationView>, applied: Set<Seq<char>>) -> Seq<
    CommandView,
> {
    expanded(migrations, planned(migrations, applied))
}

/// The commands of `first + second` are those of `first`, then those of `second`.
pub proof fn lemma_expanded_concat(
    migrations: Seq<MigrationView>,
    first: Seq<OperationView>,
    second: Seq<OperationView>,
)
    ensures
        expanded(migrations, first + second) == expanded(migrations, first) + expanded(
            migrations,
            second,
        ),
{
    assert(transactions(migrations, first + second) =~= transactions(migrations, first)
        + transactions(migrations, second));
    lemma_flatten_concat(transactions(migrations, first), transactions(migrations, second));
}

/// The commands of a single operation are its transaction.
pub proof fn lemma_expanded_single(migrations: Seq<MigrationView>, operation: OperationView)
    ensures
        expanded(migrations, seq![operation]) == transaction(migrations, operation),
{
    transactions(migrations, seq![operation]).lemma_flatten_one_element();
}

/// Writes out the commands of `operations`, transaction after transaction.
pub fn expand(migrations: &Vec<Migration>, operations: &Vec<Operation>) -> (commands: Vec<Command>)
    requires
        in_range(operation_views(operations@), migrations.len() as nat),
    ensures
        command_views(commands@) == expanded(views(migrations@), operation_views(operations@)),
{
    let ghost list = views(migrations@);
    let ghost all = operation_views(operations@);
    let mut commands: Vec<Command> = Vec::new();
    let mut i: usize = 0;
    while i < operations.len()
        invariant
            i <= operations.len(),
            list == views(migrations@),
            all == operation_views(operations@),
            in_range(all, migrations.len() as nat),
            command_views(commands@) == expanded(list, all.take(i as int)),
        decreases operations.len() - i,
    {
        let mut script = match operations[i] {
            Operation::Undo(index) => migrations[index].undo(),
            Operation::Perform(index) => migrations[index].perform(),
        };
        commands.append(&mut script);
        proof {
            assert(all.take(i + 1) =~= all.take(i as int) + seq![all[i as int]]);
            lemma_expanded_concat(list, all.take(i as int), seq![all[i as int]]);
            lemma_expanded_single(list, all[i as int]);
        }
        i += 1;
    }
    assert(all.take(i as int) =~= all);
    commands
}

} // verus!
