//! Which migrations a run rolls back and which it applies, and in what order.

use crate::migration::{views, Migration, MigrationView, Mode};
use vstd::hash_set::StringHashSet;
use vstd::prelude::*;

verus! {

/// One transaction of a run, on the migration at a position of the full list.
#[derive(Clone, Copy, PartialEq, Eq, Structural, Debug)]
pub enum Operation {
    /// Roll back the migration at this position.
    Undo(usize),
    /// Apply the migration at this position.
    Perform(usize),
}

/// The mathematical content of an [`Operation`].
pub ghost enum OperationView {
    Undo(int),
    Perform(int),
}

impl OperationView {
    /// The position of the migration that the operation works on.
    pub open spec fn index(self) -> int {
        match self {
            OperationView::Undo(index) => index,
            OperationView::Perform(index) => index,
        }
    }
}

impl View for Operation {
    type V = OperationView;

    open spec fn view(&self) -> OperationView {
        match self {
            Operation::Undo(index) => OperationView::Undo(*index as int),
            Operation::Perform(index) => OperationView::Perform(*index as int),
        }
    }
}

/// The views of a list of operations, in list order.
pub open spec fn operation_views(operations: Seq<Operation>) -> Seq<OperationView> {
    operations.map_values(|op: Operation| op@)
}

/// Whether some migration of the list asks for a replay of the whole list.
pub open spec fn is_nuclear(migrations: Seq<MigrationView>) -> bool {
    exists|i: int| 0 <= i < migrations.len() && (#[trigger] migrations[i]).mode == Mode::NuclearDebug
}

/// Whether a debug migration called `name` stands before position `index`.
/// Rolling it back has taken `name` out of the remembered names.
pub open spec fn reset_before(migrations: Seq<MigrationView>, name: Seq<char>, index: int) -> bool {
    exists|j: int|
        0 <= j < index && j < migrations.len() && (#[trigger] migrations[j]).mode == Mode::Debug
            && migrations[j].name == name
}

/// The names that a run without a nuclear migration still remembers as applied
/// when it has dealt with the migrations before position `index`: those that
/// the ledger held at the start, but for the names of the debug migrations
/// rolled back so far.
pub open spec fn remembered(
    migrations: Seq<MigrationView>,
    applied: Set<Seq<char>>,
    index: int,
) -> Set<Seq<char>> {
    Set::new(|name: Seq<char>| applied.contains(name) && !reset_before(migrations, name, index))
}

/// What a run without a nuclear migration does with the migration at position
/// `index`: a debug migration is rolled back first, and the migration is
/// applied unless its name is still remembered as applied.
pub open spec fn normal_step(
    migrations: Seq<MigrationView>,
    applied: Set<Seq<char>>,
    index: int,
) -> Seq<OperationView> {
    let rollback = if migrations[index].mode == Mode::Debug {
        seq![OperationView::Undo(index)]
    } else {
        Seq::empty()
    };
    let apply = if !remembered(migrations, applied, index + 1).contains(migrations[index].name) {
        seq![OperationView::Perform(index)]
    } else {
        Seq::empty()
    };
    rollback + apply
}

/// What a run without a nuclear migration does with the first `count`
/// migrations, in list order.
pub open spec fn normal_plan(
    migrations: Seq<MigrationView>,
    applied: Set<Seq<char>>,
    count: nat,
) -> Seq<OperationView>
    decreases count,
{
    if count == 0 {
        Seq::empty()
    } else {
        normal_plan(migrations, applied, (count - 1) as nat) + normal_step(
            migrations,
            applied,
            count - 1,
        )
    }
}

/// Rollbacks of `count` migrations, last to first.
pub open spec fn rollback_all(count: nat) -> Seq<OperationView> {
    Seq::new(count, |k: int| OperationView::Undo(count - 1 - k))
}

/// Applications of `count` migrations, first to last.
pub open spec fn apply_all(count: nat) -> Seq<OperationView> {
    Seq::new(count, |k: int| OperationView::Perform(k))
}

/// The operations of a run over `migrations`, when the ledger holds `applied`
/// at its start. With a nuclear migration in the list, every migration is
/// rolled back, last to first, whatever the ledger holds, and then every
/// migration is applied, first to last. Without one, the list is walked once.
pub open spec fn planned(migrations: Seq<MigrationView>, applied: Set<Seq<char>>) -> Seq<
    OperationView,
> {
    if is_nuclear(migrations) {
        rollback_all(migrations.len()) + apply_all(migrations.len())
    } else {
        normal_plan(migrations, applied, migrations.len())
    }
}

/// Whether every operation works on a position below `count`.
pub open spec fn in_range(operations: Seq<OperationView>, count: nat) -> bool {
    forall|k: int| 0 <= k < operations.len() ==> 0 <= (#[trigger] operations[k]).index() < count
}

/// Before the first migration is dealt with, the remembered names are those
/// read from the ledger.
pub proof fn lemma_remembered_start(migrations: Seq<MigrationView>, applied: Set<Seq<char>>)
    ensures
        remembered(migrations, applied, 0) == applied,
{
}

/// Dealing with one more migration takes its name out of the remembered names if
/// it is a debug migration, and leaves them as they are otherwise.
pub proof fn lemma_remembered_step(
    migrations: Seq<MigrationView>,
    applied: Set<Seq<char>>,
    index: int,
)
    requires
        0 <= index < migrations.len(),
    ensures
        remembered(migrations, applied, index + 1) == if migrations[index].mode == Mode::Debug {
            remembered(migrations, applied, index).remove(migrations[index].name)
        } else {
            remembered(migrations, applied, index)
        },
{
    // A debug migration stands before position `index + 1` if one stands
    // before `index` or the migration at `index` is one.
    let current = migrations[index];
    assert forall|name: Seq<char>|
        reset_before(migrations, name, index + 1) <==> (reset_before(migrations, name, index) || (
        current.mode == Mode::Debug && current.name == name)) by {}
}

/// Every operation of a plan works on a migration of the list.
pub proof fn lemma_planned_in_range(migrations: Seq<MigrationView>, applied: Set<Seq<char>>)
    ensures
        in_range(planned(migrations, applied), migrations.len()),
{
    if !is_nuclear(migrations) {
        lemma_normal_plan_in_range(migrations, applied, migrations.len());
    }
}

proof fn lemma_normal_plan_in_range(
    migrations: Seq<MigrationView>,
    applied: Set<Seq<char>>,
    count: nat,
)
    ensures
        in_range(normal_plan(migrations, applied, count), count),
    decreases count,
{
    if count > 0 {
        lemma_normal_plan_in_range(migrations, applied, (count - 1) as nat);
    }
}

/// Whether any migration of the list is in nuclear debug mode.
pub fn any_nuclear(migrations: &Vec<Migration>) -> (found: bool)
    ensures
        found == is_nuclear(views(migrations@)),
{
    let mut i: usize = 0;
    while i < migrations.len()
        invariant
            i <= migrations.len(),
            forall|j: int| 0 <= j < i ==> (#[trigger] views(migrations@)[j]).mode != Mode::NuclearDebug,
        decreases migrations.len() - i,
    {
        match migrations[i].mode {
            Mode::NuclearDebug => {
                assert(views(migrations@)[i as int].mode == Mode::NuclearDebug);
                return true;
            },
            _ => {},
        }
        i += 1;
    }
    false
}

/// The set of the names that were read from the ledger.
fn ledger_names(applied: &Vec<String>) -> (names: StringHashSet)
    ensures
        names@ == applied.deep_view().to_set(),
{
    let mut names = StringHashSet::new();
    let mut i: usize = 0;
    while i < applied.len()
        invariant
            i <= applied.len(),
            names@ == applied.deep_view().take(i as int).to_set(),
        decreases applied.len() - i,
    {
        names.insert(applied[i].clone());
        proof {
            let read = applied.deep_view();
            assert(read.take(i + 1) =~= read.take(i as int).push(read[i as int]));
            read.take(i as int).lemma_push_to_set_commute(read[i as int]);
        }
        i += 1;
    }
    assert(applied.deep_view().take(i as int) =~= applied.deep_view());
    names
}

impl Migration {
    /// Decides what a run over `migrations` does, when the names in `applied`
    /// were read from the ledger at its start.
    pub fn plan(migrations: &Vec<Migration>, applied: &Vec<String>) -> (operations: Vec<Operation>)
        ensures
            operation_views(operations@) == planned(
                views(migrations@),
                applied.deep_view().to_set(),
            ),
            in_range(operation_views(operations@), migrations.len() as nat),
    {
        proof {
            lemma_planned_in_range(views(migrations@), applied.deep_view().to_set());
        }
        let count = migrations.len();
        let ghost list = views(migrations@);
        let ghost ledger = applied.deep_view().to_set();
        let mut operations: Vec<Operation> = Vec::new();
        if any_nuclear(migrations) {
            // Roll everything back, then execute all the migrations again.
            let mut i: usize = count;
            while i > 0
                invariant
                    i <= count,
                    operation_views(operations@) == rollback_all(count as nat).take(count - i),
                decreases i,
            {
                i -= 1;
                let ghost previous = operation_views(operations@);
                operations.push(Operation::Undo(i));
                assert(operation_views(operations@) =~= previous.push(OperationView::Undo(i as int)));
            }
            let mut i: usize = 0;
            while i < count
                invariant
                    i <= count,
                    operation_views(operations@) == rollback_all(count as nat) + apply_all(
                        count as nat,
                    ).take(i as int),
                decreases count - i,
            {
                let ghost previous = operation_views(operations@);
                operations.push(Operation::Perform(i));
                assert(operation_views(operations@) =~= previous.push(
                    OperationView::Perform(i as int),
                ));
                i += 1;
            }
        } else {
            let mut tracking = ledger_names(applied);
            proof {
                lemma_remembered_start(list, ledger);
            }
            let mut i: usize = 0;
            while i < count
                invariant
                    i <= count,
                    count == migrations.len(),
                    list == views(migrations@),
                    tracking@ == remembered(list, ledger, i as int),
                    operation_views(operations@) == normal_plan(list, ledger, i as nat),
                decreases count - i,
            {
                let migration = &migrations[i];
                let debug = match migration.mode {
                    Mode::Debug => true,
                    _ => false,
                };
                if debug {
                    operations.push(Operation::Undo(i));
                    tracking.remove(migration.name.as_str());
                }
                proof {
                    lemma_remembered_step(list, ledger, i as int);
                }
                if !tracking.contains(migration.name.as_str()) {
                    operations.push(Operation::Perform(i));
                }
                i += 1;
            }
        }
        operations
    }
}

} // verus!
