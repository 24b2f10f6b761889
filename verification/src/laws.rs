//! What holds of every run, proved from the definitions of the plan, of the
//! two transactions of a migration and of the ledger model.

use crate::ledger::{
    committed, commits_nothing, ledger_after, lemma_committed_ignores_open_transaction,
    lemma_ledger_after_concat, lemma_ledger_after_perform, lemma_scripts_are_transactions,
    lemma_whole_transactions_are_committed,
};
use crate::migration::{MigrationView, Mode};
use crate::migration_0_initial::NAME;
use crate::plan::{
    apply_all, is_nuclear, normal_plan, normal_step, planned, remembered, rollback_all,
    OperationView,
};
use crate::runner::{run_script, with_bootstrap};
use crate::schedule::{
    expanded, lemma_expanded_concat, lemma_expanded_single, scheduled, transaction, transactions,
};
use crate::script::CommandView;
use vstd::prelude::*;

verus! {

/// Whether every migration of the list is stable.
pub open spec fn all_stable(migrations: Seq<MigrationView>) -> bool {
    forall|i: int| 0 <= i < migrations.len() ==> (#[trigger] migrations[i]).mode == Mode::Stable
}

/// No operations expand to no commands.
pub proof fn lemma_expanded_empty(migrations: Seq<MigrationView>)
    ensures
        expanded(migrations, Seq::<OperationView>::empty()) == Seq::<CommandView>::empty(),
{
}

/// With stable migrations only and an empty ledger, the first `count`
/// migrations are applied, one after the other.
proof fn lemma_fresh_plan_applies_all(migrations: Seq<MigrationView>, count: nat)
    requires
        all_stable(migrations),
        count <= migrations.len(),
    ensures
        normal_plan(migrations, Set::empty(), count) == apply_all(count),
    decreases count,
{
    if count > 0 {
        lemma_fresh_plan_applies_all(migrations, (count - 1) as nat);
    }
}

/// A run on a fresh database applies everything. When no migration is
/// recorded and all supplied migrations are stable, the run applies the
/// bootstrap migration, which creates the ledger, and then every supplied
/// migration in list order. Once it has succeeded, the ledger holds the name
/// of each of them.
pub proof fn lemma_fresh_run_applies_everything(supplied: Seq<MigrationView>)
    requires
        all_stable(supplied),
    ensures
        ({
            let full = with_bootstrap(supplied);
            let fresh = Set::<Seq<char>>::empty();
            &&& planned(full, fresh) == apply_all(full.len())
            &&& forall|i: int|
                0 <= i < full.len() ==> ledger_after(fresh, run_script(supplied, fresh)).contains(
                    #[trigger] full[i].name,
                )
        }),
{
    let full = with_bootstrap(supplied);
    lemma_with_bootstrap_all_stable(supplied);
    lemma_fresh_plan_applies_all(full, full.len());
    lemma_forward_run_records_all(full, Set::empty(), full.len());
}

/// The bootstrap migration is stable, so it leaves a list of stable
/// migrations one.
proof fn lemma_with_bootstrap_all_stable(supplied: Seq<MigrationView>)
    requires
        all_stable(supplied),
    ensures
        all_stable(with_bootstrap(supplied)),
        !is_nuclear(with_bootstrap(supplied)),
{
    let full = with_bootstrap(supplied);
    assert forall|i: int| 0 <= i < full.len() implies (#[trigger] full[i]).mode
        == Mode::Stable by {
        // The bootstrap migration comes first, the supplied ones follow.
        assert(i > 0 ==> full[i] == supplied[i - 1]);
    }
}

/// With stable migrations only, the first `count` of them are all recorded
/// once their part of the run has succeeded, and no record is lost.
proof fn lemma_forward_run_records_all(
    migrations: Seq<MigrationView>,
    applied: Set<Seq<char>>,
    count: nat,
)
    requires
        all_stable(migrations),
        count <= migrations.len(),
    ensures
        ({
            let ledger = ledger_after(
                applied,
                expanded(migrations, normal_plan(migrations, applied, count)),
            );
            &&& applied.subset_of(ledger)
            &&& forall|i: int| 0 <= i < count ==> ledger.contains(#[trigger] migrations[i].name)
        }),
    decreases count,
{
    if count == 0 {
        lemma_expanded_empty(migrations);
    } else {
        let index = count - 1;
        let earlier = normal_plan(migrations, applied, index as nat);
        let step = normal_step(migrations, applied, index);
        let current = migrations[index];
        lemma_forward_run_records_all(migrations, applied, index as nat);
        lemma_expanded_concat(migrations, earlier, step);
        lemma_ledger_after_concat(
            applied,
            expanded(migrations, earlier),
            expanded(migrations, step),
        );
        let before = ledger_after(applied, expanded(migrations, earlier));
        if remembered(migrations, applied, index + 1).contains(current.name) {
            lemma_expanded_empty(migrations);
        } else {
            lemma_expanded_single(migrations, OperationView::Perform(index));
            lemma_ledger_after_perform(before, current);
        }
    }
}

/// With stable migrations only, a run has nothing to do for the first `count`
/// of them if the ledger holds all their names.
proof fn lemma_recorded_run_is_empty(
    migrations: Seq<MigrationView>,
    applied: Set<Seq<char>>,
    count: nat,
)
    requires
        all_stable(migrations),
        count <= migrations.len(),
        forall|i: int| 0 <= i < count ==> applied.contains(#[trigger] migrations[i].name),
    ensures
        normal_plan(migrations, applied, count) == Seq::<OperationView>::empty(),
    decreases count,
{
    if count > 0 {
        lemma_recorded_run_is_empty(migrations, applied, (count - 1) as nat);
    }
}

/// Forward-only runs are idempotent. When all supplied migrations are stable
/// and a run over them has succeeded, a second run over the same list has no
/// command to issue, so no statement is executed again and the ledger stays
/// as the first run left it. This holds whatever the ledger held before the
/// first run.
pub proof fn lemma_forward_run_is_idempotent(
    supplied: Seq<MigrationView>,
    applied: Set<Seq<char>>,
)
    requires
        all_stable(supplied),
    ensures
        ({
            let ledger = ledger_after(applied, run_script(supplied, applied));
            &&& run_script(supplied, ledger) == Seq::<CommandView>::empty()
            &&& ledger_after(ledger, run_script(supplied, ledger)) == ledger
        }),
{
    let full = with_bootstrap(supplied);
    lemma_with_bootstrap_all_stable(supplied);
    lemma_forward_run_records_all(full, applied, full.len());
    let ledger = ledger_after(applied, run_script(supplied, applied));
    lemma_recorded_run_is_empty(full, ledger, full.len());
    lemma_expanded_empty(full);
}

/// A nuclear run replays everything. If any supplied migration is in nuclear
/// debug mode, the run rolls back every migration of the full list, the last
/// first and the bootstrap migration last, whether or not the ledger records
/// them, and then applies every migration, the bootstrap migration first.
pub proof fn lemma_nuclear_run_replays_everything(
    supplied: Seq<MigrationView>,
    applied: Set<Seq<char>>,
)
    requires
        is_nuclear(supplied),
    ensures
        ({
            let full = with_bootstrap(supplied);
            let count = full.len() as int;
            let plan = planned(full, applied);
            &&& plan.len() == 2 * count
            &&& forall|k: int| 0 <= k < count ==> #[trigger] plan[k] == OperationView::Undo(count - 1 - k)
            &&& forall|k: int|
                count <= k < 2 * count ==> #[trigger] plan[k] == OperationView::Perform(k - count)
            &&& run_script(supplied, applied) == expanded(full, rollback_all(full.len()))
                + expanded(full, apply_all(full.len()))
        }),
{
    let full = with_bootstrap(supplied);
    let i = choose|i: int|
        0 <= i < supplied.len() && (#[trigger] supplied[i]).mode == Mode::NuclearDebug;
    assert(full[i + 1] == supplied[i]);
    lemma_expanded_concat(full, rollback_all(full.len()), apply_all(full.len()));
}

/// Whether no command deletes the ledger record of the bootstrap migration.
pub open spec fn keeps_bootstrap_record(commands: Seq<CommandView>) -> bool {
    forall|k: int| 0 <= k < commands.len() ==> #[trigger] commands[k] != CommandView::Forget(NAME@)
}

/// Neither transaction of a migration deletes the bootstrap record.
pub proof fn lemma_transaction_keeps_bootstrap_record(migration: MigrationView)
    ensures
        keeps_bootstrap_record(migration.perform()),
        keeps_bootstrap_record(migration.undo()),
{
}

/// No list of operations expands to a command that deletes the bootstrap record.
pub proof fn lemma_expanded_keeps_bootstrap_record(
    migrations: Seq<MigrationView>,
    operations: Seq<OperationView>,
)
    ensures
        keeps_bootstrap_record(expanded(migrations, operations)),
    decreases operations.len(),
{
    if operations.len() == 0 {
        lemma_expanded_empty(migrations);
    } else {
        let earlier = operations.drop_last();
        let last = operations.last();
        assert(operations =~= earlier + seq![last]);
        lemma_expanded_concat(migrations, earlier, seq![last]);
        lemma_expanded_single(migrations, last);
        lemma_expanded_keeps_bootstrap_record(migrations, earlier);
        lemma_transaction_keeps_bootstrap_record(migrations[last.index()]);
    }
}

/// A name stays in the ledger as long as no command deletes its record.
pub proof fn lemma_record_stays(
    ledger: Set<Seq<char>>,
    commands: Seq<CommandView>,
    name: Seq<char>,
)
    requires
        ledger.contains(name),
        forall|k: int| 0 <= k < commands.len() ==> #[trigger] commands[k] != CommandView::Forget(name),
    ensures
        ledger_after(ledger, commands).contains(name),
    decreases commands.len(),
{
    if commands.len() > 0 {
        lemma_record_stays(ledger, commands.drop_last(), name);
    }
}

/// The bootstrap record is never deleted. No run issues a command that
/// deletes the ledger record of the bootstrap migration, whatever modes the
/// migrations are in and whatever the ledger holds. So the bookkeeping of a
/// run never takes the record out of a ledger that holds it, however many
/// commands of the run have been carried out.
pub proof fn lemma_bootstrap_record_is_never_deleted(
    supplied: Seq<MigrationView>,
    applied: Set<Seq<char>>,
    ledger: Set<Seq<char>>,
    carried_out: int,
)
    requires
        0 <= carried_out <= run_script(supplied, applied).len(),
    ensures
        keeps_bootstrap_record(run_script(supplied, applied)),
        ledger.contains(NAME@) ==> ledger_after(
            ledger,
            run_script(supplied, applied).take(carried_out),
        ).contains(NAME@),
{
    let script = run_script(supplied, applied);
    lemma_expanded_keeps_bootstrap_record(
        with_bootstrap(supplied),
        planned(with_bootstrap(supplied), applied),
    );
    if ledger.contains(NAME@) {
        lemma_record_stays(ledger, script.take(carried_out), NAME@);
    }
}

/// Whether `part` stands in `whole` from position `offset` on, unbroken.
pub open spec fn occurs_at<A>(whole: Seq<A>, part: Seq<A>, offset: int) -> bool {
    &&& 0 <= offset
    &&& offset + part.len() <= whole.len()
    &&& whole.subrange(offset, offset + part.len()) == part
}

/// The plan for the first `count` migrations begins with the plan for fewer.
proof fn lemma_normal_plan_grows(
    migrations: Seq<MigrationView>,
    applied: Set<Seq<char>>,
    fewer: nat,
    count: nat,
)
    requires
        fewer <= count,
    ensures
        normal_plan(migrations, applied, fewer).len() <= normal_plan(
            migrations,
            applied,
            count,
        ).len(),
        normal_plan(migrations, applied, count).take(
            normal_plan(migrations, applied, fewer).len() as int,
        ) == normal_plan(migrations, applied, fewer),
    decreases count,
{
    if fewer < count {
        lemma_normal_plan_grows(migrations, applied, fewer, (count - 1) as nat);
    }
}

/// A debug migration is applied afresh by every run. Whatever the ledger
/// holds, a run over a list that has a debug migration at position `index`
/// rolls the migration back and applies it afterwards. Without a nuclear
/// migration in the list the two transactions follow each other directly:
/// the "down" statements of the migration are executed, then its "up"
/// statements.
pub proof fn lemma_debug_migration_is_replayed(
    migrations: Seq<MigrationView>,
    applied: Set<Seq<char>>,
    index: int,
)
    requires
        0 <= index < migrations.len(),
        migrations[index].mode == Mode::Debug,
    ensures
        ({
            let plan = planned(migrations, applied);
            exists|undone: int, redone: int|
                0 <= undone < redone < plan.len() && #[trigger] plan[undone] == OperationView::Undo(
                    index,
                ) && #[trigger] plan[redone] == OperationView::Perform(index) && (!is_nuclear(
                    migrations,
                ) ==> redone == undone + 1)
        }),
        !is_nuclear(migrations) ==> exists|offset: int|
            occurs_at(
                scheduled(migrations, applied),
                migrations[index].undo() + migrations[index].perform(),
                offset,
            ),
{
    let plan = planned(migrations, applied);
    let count = migrations.len() as int;
    if is_nuclear(migrations) {
        let undone = count - 1 - index;
        let redone = count + index;
        assert(plan[undone] == OperationView::Undo(index));
        assert(plan[redone] == OperationView::Perform(index));
    } else {
        // The plan up to the migration, then its rollback and its application.
        let earlier = normal_plan(migrations, applied, index as nat);
        let step = normal_step(migrations, applied, index);
        let through = earlier + step;
        lemma_normal_plan_grows(migrations, applied, (index + 1) as nat, migrations.len());
        let undone = earlier.len() as int;
        let redone = undone + 1;
        assert(plan[undone] == through[undone]);
        assert(plan[redone] == through[redone]);

        // The commands of the two transactions stand where the plan has them.
        let rest = plan.skip(through.len() as int);
        assert(plan =~= through + rest);
        lemma_expanded_concat(migrations, through, rest);
        lemma_expanded_concat(migrations, earlier, step);
        lemma_expanded_concat(
            migrations,
            seq![OperationView::Undo(index)],
            seq![OperationView::Perform(index)],
        );
        lemma_expanded_single(migrations, OperationView::Undo(index));
        lemma_expanded_single(migrations, OperationView::Perform(index));
        let replay = migrations[index].undo() + migrations[index].perform();
        let head = expanded(migrations, earlier);
        let script = scheduled(migrations, applied);
        let offset = head.len() as int;
        assert(script.subrange(offset, offset + replay.len()) =~= replay);
        assert(occurs_at(script, replay, offset));
    }
}

/// A failed command leaves its transaction uncommitted. A run issues the
/// commands of its operations in order. When the command at position `failed`
/// fails, the commands before it have been carried out. What of them is
/// committed is exactly the transactions that precede the one the failed
/// command belongs to: no statement of that transaction persists, and its
/// ledger record is neither inserted nor deleted.
pub proof fn lemma_failure_commits_no_part_of_its_transaction(
    migrations: Seq<MigrationView>,
    operations: Seq<OperationView>,
    failed: int,
)
    requires
        0 <= failed < expanded(migrations, operations).len(),
    ensures
        exists|broken: int|
            {
                &&& 0 <= broken < operations.len()
                &&& expanded(migrations, #[trigger] operations.take(broken)).len() <= failed
                &&& failed < expanded(migrations, operations.take(broken + 1)).len()
                &&& committed(expanded(migrations, operations).take(failed)) == expanded(
                    migrations,
                    operations.take(broken),
                )
            },
    decreases operations.len(),
{
    if operations.len() == 0 {
        lemma_expanded_empty(migrations);
    } else {
        let earlier = operations.drop_last();
        let last = operations.last();
        assert(operations =~= earlier + seq![last]);
        lemma_expanded_concat(migrations, earlier, seq![last]);
        lemma_expanded_single(migrations, last);
        let head = expanded(migrations, earlier);
        let tail = transaction(migrations, last);
        let script = expanded(migrations, operations);
        if failed < head.len() {
            // The failed command belongs to an earlier transaction.
            lemma_failure_commits_no_part_of_its_transaction(migrations, earlier, failed);
            let broken = choose|broken: int|
                {
                    &&& 0 <= broken < earlier.len()
                    &&& expanded(migrations, #[trigger] earlier.take(broken)).len() <= failed
                    &&& failed < expanded(migrations, earlier.take(broken + 1)).len()
                    &&& committed(head.take(failed)) == expanded(migrations, earlier.take(broken))
                };
            assert(earlier.take(broken) =~= operations.take(broken));
            assert(earlier.take(broken + 1) =~= operations.take(broken + 1));
            assert(script.take(failed) =~= head.take(failed));
        } else {
            // The failed command belongs to the last transaction, of which
            // the commit, its last command, has not succeeded.
            let broken = operations.len() - 1;
            assert(operations.take(broken + 1) =~= operations);
            let open = tail.take(failed - head.len());
            assert(script.take(failed) =~= head + open);
            lemma_scripts_are_transactions(migrations[last.index()]);
            assert(commits_nothing(open));
            lemma_committed_ignores_open_transaction(head, open);
            lemma_whole_transactions_are_committed(migrations, earlier);
        }
    }
}

/// The migration that grows out of `start` by one call of `with_up` and one of
/// `with_down` for each step of a change, the steps taken in order: step `k`
/// is carried out by `ups[k]` and taken back by `downs[k]`.
pub open spec fn with_steps(
    start: MigrationView,
    ups: Seq<Seq<char>>,
    downs: Seq<Seq<char>>,
) -> MigrationView
    decreases ups.len(),
{
    if ups.len() == 0 || downs.len() == 0 {
        start
    } else {
        with_steps(start, ups.drop_last(), downs.drop_last()).with_up(ups.last()).with_down(
            downs.last(),
        )
    }
}

/// Rollback statements run in the reverse of the order in which they were
/// added. A migration built step by step executes its "up" statements in the
/// order of the steps, and its "down" statements in the opposite order: the
/// statement that takes back the last step runs first.
pub proof fn lemma_down_statements_run_in_reverse(
    start: MigrationView,
    ups: Seq<Seq<char>>,
    downs: Seq<Seq<char>>,
)
    requires
        ups.len() == downs.len(),
    ensures
        with_steps(start, ups, downs).name == start.name,
        with_steps(start, ups, downs).mode == start.mode,
        with_steps(start, ups, downs).up == start.up + ups,
        with_steps(start, ups, downs).down == downs.reverse() + start.down,
    decreases ups.len(),
{
    if ups.len() > 0 {
        lemma_down_statements_run_in_reverse(start, ups.drop_last(), downs.drop_last());
    }
}

/// The state that `statements`, executed in order, lead to from `state`,
/// where `effect` says what one statement does to a state.
pub open spec fn state_after<S>(
    effect: spec_fn(S, Seq<char>) -> S,
    state: S,
    statements: Seq<Seq<char>>,
) -> S
    decreases statements.len(),
{
    if statements.len() == 0 {
        state
    } else {
        effect(state_after(effect, state, statements.drop_last()), statements.last())
    }
}

/// Executing `first + second` is executing `first`, then `second`.
pub proof fn lemma_state_after_concat<S>(
    effect: spec_fn(S, Seq<char>) -> S,
    state: S,
    first: Seq<Seq<char>>,
    second: Seq<Seq<char>>,
)
    ensures
        state_after(effect, state, first + second) == state_after(
            effect,
            state_after(effect, state, first),
            second,
        ),
    decreases second.len(),
{
    if second.len() > 0 {
        assert((first + second).drop_last() =~= first + second.drop_last());
        lemma_state_after_concat(effect, state, first, second.drop_last());
    }
}

/// Applying a migration and rolling it back is a round trip. If each "down"
/// statement exactly takes back what its "up" statement did, whatever the
/// state, then the "down" statements of the migration built from them,
/// executed after its "up" statements, lead back to the state before the
/// migration.
pub proof fn lemma_rollback_restores_state<S>(
    effect: spec_fn(S, Seq<char>) -> S,
    state: S,
    name: Seq<char>,
    ups: Seq<Seq<char>>,
    downs: Seq<Seq<char>>,
)
    requires
        ups.len() == downs.len(),
        forall|s: S, k: int|
            0 <= k < ups.len() ==> #[trigger] effect(effect(s, ups[k]), downs[k]) == s,
    ensures
        ({
            let built = with_steps(MigrationView::create(name), ups, downs);
            state_after(effect, state_after(effect, state, built.up), built.down) == state
        }),
    decreases ups.len(),
{
    let start = MigrationView::create(name);
    lemma_down_statements_run_in_reverse(start, ups, downs);
    if ups.len() > 0 {
        // By induction the steps but the last are a round trip.
        let fewer_ups = ups.drop_last();
        let fewer_downs = downs.drop_last();
        assert forall|s: S, k: int| 0 <= k < fewer_ups.len() implies #[trigger] effect(
            effect(s, fewer_ups[k]),
            fewer_downs[k],
        ) == s by {
            assert(effect(effect(s, ups[k]), downs[k]) == s);
        }
        lemma_rollback_restores_state(effect, state, name, fewer_ups, fewer_downs);
        lemma_down_statements_run_in_reverse(start, fewer_ups, fewer_downs);
        // The last step is taken back first, which leads to the state that
        // the steps before it had reached.
        let reached = state_after(effect, state, fewer_ups);
        let last = ups.len() - 1;
        lemma_state_after_concat(
            effect,
            effect(reached, ups[last]),
            seq![downs[last]],
            fewer_downs.reverse(),
        );
        assert(state_after(effect, effect(reached, ups[last]), seq![downs[last]]) == effect(
            effect(reached, ups[last]),
            downs[last],
        )) by {
            reveal_with_fuel(state_after, 2);
        }
    }
}

} // verus!
