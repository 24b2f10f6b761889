use simple_migrator::error::describe_failure;
use simple_migrator::migration_0_initial::{CREATE_LEDGER, DROP_LEDGER};
use simple_migrator::{Build, Command, Migration, MigrationError, Run};
use std::collections::{BTreeMap, BTreeSet};

/// A database small enough to hold in memory: the ledger, the columns of
/// each table, and the state to return to when a transaction is abandoned.
#[derive(Clone, Debug, PartialEq, Eq, Default)]
struct State {
    ledger: Option<BTreeSet<String>>,
    tables: BTreeMap<String, Vec<String>>,
}

#[derive(Default)]
struct Database {
    state: State,
    saved: Option<State>,
    executed: Vec<String>,
}

fn refuse(what: &str) -> Result<(), sqlx::Error> {
    Err(sqlx::Error::Protocol(what.to_string()))
}

impl Database {
    fn read_ledger(&self) -> Result<Vec<String>, sqlx::Error> {
        match &self.state.ledger {
            Some(names) => Ok(names.iter().cloned().collect()),
            None => Err(sqlx::Error::Protocol("relation \"migrations\" does not exist".to_string())),
        }
    }

    fn execute(&mut self, statement: &str) -> Result<(), sqlx::Error> {
        self.executed.push(statement.to_string());
        let words: Vec<&str> = statement.split_whitespace().collect();
        let text = words.join(" ");
        if statement == CREATE_LEDGER {
            if self.state.ledger.is_some() {
                return refuse("relation \"migrations\" already exists");
            }
            self.state.ledger = Some(BTreeSet::new());
        } else if statement == DROP_LEDGER {
            self.state.ledger = None;
        } else if text == "CREATE TABLE t(id int)" {
            if self.state.tables.contains_key("t") {
                return refuse("relation \"t\" already exists");
            }
            self.state.tables.insert("t".to_string(), vec!["id".to_string()]);
        } else if text == "DROP TABLE t" {
            if self.state.tables.remove("t").is_none() {
                return refuse("table \"t\" does not exist");
            }
        } else if text == "DROP TABLE IF EXISTS t" {
            self.state.tables.remove("t");
        } else if text == "ALTER TABLE t ADD COLUMN name text" {
            match self.state.tables.get_mut("t") {
                Some(columns) if !columns.contains(&"name".to_string()) => {
                    columns.push("name".to_string())
                }
                _ => return refuse("cannot add column"),
            }
        } else if text == "ALTER TABLE t DROP COLUMN name" {
            match self.state.tables.get_mut("t") {
                Some(columns) if columns.contains(&"name".to_string()) => {
                    columns.retain(|c| c != "name")
                }
                _ => return refuse("cannot drop column"),
            }
        } else if text == "ALTER TABLE t DROP COLUMN IF EXISTS name" {
            if let Some(columns) = self.state.tables.get_mut("t") {
                columns.retain(|c| c != "name");
            }
        } else if text.starts_with("NOTE ") {
        } else {
            return refuse("syntax error");
        }
        Ok(())
    }

    fn issue(&mut self, command: &Command) -> Result<(), sqlx::Error> {
        match command {
            Command::Begin => {
                assert!(self.saved.is_none());
                self.saved = Some(self.state.clone());
                Ok(())
            }
            Command::Execute(statement) => {
                assert!(self.saved.is_some());
                self.execute(statement)
            }
            Command::Record(name) => {
                assert!(self.saved.is_some());
                match &mut self.state.ledger {
                    Some(names) => {
                        if names.insert(name.clone()) {
                            Ok(())
                        } else {
                            refuse("duplicate key value violates unique constraint")
                        }
                    }
                    None => refuse("relation \"migrations\" does not exist"),
                }
            }
            Command::Forget(name) => {
                assert!(self.saved.is_some());
                match &mut self.state.ledger {
                    Some(names) => {
                        names.remove(name);
                        Ok(())
                    }
                    None => refuse("relation \"migrations\" does not exist"),
                }
            }
            Command::Commit => {
                assert!(self.saved.is_some());
                self.saved = None;
                Ok(())
            }
        }
    }

    /// What the driver does with a run: issue the pending command, report
    /// the outcome, and abandon the open transaction when the run fails.
    fn run_all(&mut self, supplied: Vec<Migration>) -> Result<(), MigrationError> {
        let mut run = Migration::run_all(supplied, self.read_ledger());
        self.drive(&mut run)
    }

    fn drive(&mut self, run: &mut Run) -> Result<(), MigrationError> {
        loop {
            let outcome = match run.pending() {
                Some(command) => self.issue(command),
                None => break,
            };
            if let Err(failure) = run.record(outcome) {
                if let Some(saved) = self.saved.take() {
                    self.state = saved;
                }
                assert!(run.pending().is_none());
                assert!(!run.is_finished());
                return Err(failure);
            }
        }
        assert!(run.is_finished());
        Ok(())
    }

    fn ledger(&self) -> Vec<&str> {
        match &self.state.ledger {
            Some(names) => names.iter().map(|n| n.as_str()).collect(),
            None => panic!("no ledger"),
        }
    }

    fn columns(&self, table: &str) -> Vec<&str> {
        self.state.tables[table].iter().map(|c| c.as_str()).collect()
    }
}

fn a() -> Migration {
    Migration::new("A").with_up("CREATE TABLE t(id int)").with_down("DROP TABLE t")
}

fn b() -> Migration {
    Migration::new("B")
        .with_up("ALTER TABLE t ADD COLUMN name text")
        .with_down("ALTER TABLE t DROP COLUMN name")
}

fn unreadable() -> Result<Vec<String>, sqlx::Error> {
    Err(sqlx::Error::RowNotFound)
}

fn read(names: &[&str]) -> Result<Vec<String>, sqlx::Error> {
    Ok(names.iter().map(|n| n.to_string()).collect())
}

fn script(run: &Run) -> Vec<Command> {
    run.commands().iter().map(|c| c.clone()).collect()
}

#[test]
fn fresh_database_gets_the_ledger_and_the_initial_record() {
    let mut db = Database::default();
    assert!(db.read_ledger().is_err());
    db.run_all(vec![]).unwrap();
    assert_eq!(db.ledger(), vec!["initial"]);
    assert_eq!(db.executed, vec![CREATE_LEDGER.to_string()]);
}

#[test]
fn run_over_no_migrations_issues_the_bootstrap_transaction() {
    let run = Migration::run_all(vec![], unreadable());
    assert_eq!(
        script(&run),
        vec![
            Command::Begin,
            Command::Execute(CREATE_LEDGER.to_string()),
            Command::Record("initial".to_string()),
            Command::Commit,
        ]
    );
    assert_eq!(run.pending(), Some(&Command::Begin));
    assert!(!run.is_finished());
}

#[test]
fn unreadable_ledger_counts_as_nothing_applied() {
    let from_error = Migration::run_all(vec![a(), b()], unreadable());
    let from_empty = Migration::run_all(vec![a(), b()], read(&[]));
    assert_eq!(script(&from_error), script(&from_empty));
    assert_eq!(script(&from_error).len(), 12);
}

#[test]
fn recorded_migrations_are_not_run_again() {
    let run = Migration::run_all(vec![a(), b()], read(&["initial", "A"]));
    assert_eq!(
        script(&run),
        vec![
            Command::Begin,
            Command::Execute("ALTER TABLE t ADD COLUMN name text".to_string()),
            Command::Record("B".to_string()),
            Command::Commit,
        ]
    );
}

#[test]
fn fully_recorded_run_has_nothing_pending() {
    let run = Migration::run_all(vec![a(), b()], read(&["B", "initial", "A"]));
    assert_eq!(script(&run), vec![]);
    assert_eq!(run.pending(), None);
    assert!(run.is_finished());
}

#[test]
fn scenario_two_migrations_then_rerun_then_debug() {
    let mut db = Database::default();
    db.run_all(vec![a(), b()]).unwrap();
    assert_eq!(db.ledger(), vec!["A", "B", "initial"]);
    assert_eq!(db.columns("t"), vec!["id", "name"]);
    assert_eq!(
        db.executed,
        vec![
            CREATE_LEDGER.to_string(),
            "CREATE TABLE t(id int)".to_string(),
            "ALTER TABLE t ADD COLUMN name text".to_string(),
        ]
    );

    let before = db.state.clone();
    db.executed.clear();
    db.run_all(vec![a(), b()]).unwrap();
    assert_eq!(db.state, before);
    assert!(db.executed.is_empty());

    db.run_all(vec![a(), b().debug(Build::Debug)]).unwrap();
    assert_eq!(
        db.executed,
        vec![
            "ALTER TABLE t DROP COLUMN name".to_string(),
            "ALTER TABLE t ADD COLUMN name text".to_string(),
        ]
    );
    assert_eq!(db.state, before);
    assert_eq!(db.columns("t"), vec!["id", "name"]);
    assert_eq!(db.ledger(), vec!["A", "B", "initial"]);
}

#[test]
fn forward_runs_are_idempotent() {
    let mut db = Database::default();
    db.run_all(vec![a()]).unwrap();
    db.run_all(vec![a(), b()]).unwrap();
    let before = db.state.clone();
    db.executed.clear();
    for _ in 0..3 {
        db.run_all(vec![a(), b()]).unwrap();
        assert_eq!(db.state, before);
        assert!(db.executed.is_empty());
    }
}

#[test]
fn debug_migration_runs_down_then_up_on_every_run() {
    let mut db = Database::default();
    db.run_all(vec![a(), b()]).unwrap();
    for _ in 0..2 {
        db.executed.clear();
        db.run_all(vec![a(), b().debug(Build::Debug)]).unwrap();
        assert_eq!(
            db.executed,
            vec![
                "ALTER TABLE t DROP COLUMN name".to_string(),
                "ALTER TABLE t ADD COLUMN name text".to_string(),
            ]
        );
    }
}

#[test]
fn debug_migration_is_rolled_back_even_when_never_applied() {
    let tolerant = Migration::new("B")
        .with_up("ALTER TABLE t ADD COLUMN name text")
        .with_down("ALTER TABLE t DROP COLUMN IF EXISTS name")
        .debug(Build::Debug);
    let run = Migration::run_all(vec![a(), tolerant], read(&["initial", "A"]));
    assert_eq!(
        script(&run),
        vec![
            Command::Begin,
            Command::Execute("ALTER TABLE t DROP COLUMN IF EXISTS name".to_string()),
            Command::Forget("B".to_string()),
            Command::Commit,
            Command::Begin,
            Command::Execute("ALTER TABLE t ADD COLUMN name text".to_string()),
            Command::Record("B".to_string()),
            Command::Commit,
        ]
    );
}

#[test]
fn nuclear_run_rolls_everything_back_and_replays_it() {
    let run = Migration::run_all(
        vec![a(), b().nuclear_debug(Build::Debug)],
        read(&["initial", "A", "B"]),
    );
    assert_eq!(
        script(&run),
        vec![
            Command::Begin,
            Command::Execute("ALTER TABLE t DROP COLUMN name".to_string()),
            Command::Forget("B".to_string()),
            Command::Commit,
            Command::Begin,
            Command::Execute("DROP TABLE t".to_string()),
            Command::Forget("A".to_string()),
            Command::Commit,
            Command::Begin,
            Command::Execute(DROP_LEDGER.to_string()),
            Command::Commit,
            Command::Begin,
            Command::Execute(CREATE_LEDGER.to_string()),
            Command::Record("initial".to_string()),
            Command::Commit,
            Command::Begin,
            Command::Execute("CREATE TABLE t(id int)".to_string()),
            Command::Record("A".to_string()),
            Command::Commit,
            Command::Begin,
            Command::Execute("ALTER TABLE t ADD COLUMN name text".to_string()),
            Command::Record("B".to_string()),
            Command::Commit,
        ]
    );
}

#[test]
fn nuclear_run_does_not_depend_on_the_ledger() {
    let list = || vec![a(), b().nuclear_debug(Build::Debug)];
    let full = script(&Migration::run_all(list(), read(&["initial", "A", "B"])));
    assert_eq!(script(&Migration::run_all(list(), read(&[]))), full);
    assert_eq!(script(&Migration::run_all(list(), unreadable())), full);
    assert_eq!(script(&Migration::run_all(list(), read(&["A"]))), full);
}

#[test]
fn nuclear_run_restores_the_database() {
    let mut db = Database::default();
    db.run_all(vec![a(), b()]).unwrap();
    let before = db.state.clone();
    db.executed.clear();
    db.run_all(vec![a(), b().nuclear_debug(Build::Debug)]).unwrap();
    assert_eq!(db.state, before);
    assert_eq!(
        db.executed,
        vec![
            "ALTER TABLE t DROP COLUMN name".to_string(),
            "DROP TABLE t".to_string(),
            DROP_LEDGER.to_string(),
            CREATE_LEDGER.to_string(),
            "CREATE TABLE t(id int)".to_string(),
            "ALTER TABLE t ADD COLUMN name text".to_string(),
        ]
    );
}

#[test]
fn nuclear_run_on_a_fresh_database_fails_at_the_first_deletion() {
    let mut db = Database::default();
    let tolerant = Migration::new("A")
        .with_up("CREATE TABLE t(id int)")
        .with_down("DROP TABLE IF EXISTS t")
        .nuclear_debug(Build::Debug);
    let failure = db.run_all(vec![tolerant]).unwrap_err();
    assert_eq!(failure.statement, "DELETE FROM migrations WHERE name = $1");
    assert_eq!(db.executed, vec!["DROP TABLE IF EXISTS t".to_string()]);
    assert_eq!(db.state, State::default());
}

#[test]
fn no_run_deletes_the_bootstrap_record() {
    let lists: Vec<Vec<Migration>> = vec![
        vec![],
        vec![a(), b()],
        vec![a().debug(Build::Debug), b()],
        vec![a(), b().nuclear_debug(Build::Debug)],
        vec![Migration::new("initial").with_down("NOTE twin").debug(Build::Debug)],
        vec![Migration::new("initial").nuclear_debug(Build::Debug)],
    ];
    for list in lists {
        for ledger in [read(&[]), read(&["initial"]), read(&["initial", "A", "B"])] {
            let run = Migration::run_all(list.clone(), ledger);
            for command in run.commands() {
                assert_ne!(command, &Command::Forget("initial".to_string()));
            }
        }
    }
}

#[test]
fn failing_up_statement_is_reported_and_nothing_of_its_transaction_persists() {
    let mut db = Database::default();
    db.run_all(vec![a()]).unwrap();
    let before = db.state.clone();
    db.executed.clear();
    let broken = Migration::new("C")
        .with_up("ALTER TABLE t ADD COLUMN name text")
        .with_up("THIS IS NOT SQL")
        .with_up("NOTE never reached");
    let failure = db.run_all(vec![a(), broken, b()]).unwrap_err();
    assert_eq!(failure.statement, "THIS IS NOT SQL");
    assert!(matches!(&failure.error, sqlx::Error::Protocol(text) if text == "syntax error"));
    assert_eq!(
        db.executed,
        vec!["ALTER TABLE t ADD COLUMN name text".to_string(), "THIS IS NOT SQL".to_string()]
    );
    assert_eq!(db.state, before);
    assert_eq!(db.ledger(), vec!["A", "initial"]);
    assert_eq!(db.columns("t"), vec!["id"]);
}

#[test]
fn transactions_before_the_failure_stay_committed() {
    let mut db = Database::default();
    let broken = Migration::new("C").with_up("THIS IS NOT SQL");
    let failure = db.run_all(vec![a(), broken, b()]).unwrap_err();
    assert_eq!(failure.statement, "THIS IS NOT SQL");
    assert_eq!(db.ledger(), vec!["A", "initial"]);
    assert_eq!(db.columns("t"), vec!["id"]);
}

#[test]
fn failure_stops_the_run_at_once() {
    let mut run = Migration::run_all(vec![a(), b()], read(&["initial"]));
    assert_eq!(run.pending(), Some(&Command::Begin));
    assert!(run.record(Ok(())).is_ok());
    assert_eq!(run.pending(), Some(&Command::Execute("CREATE TABLE t(id int)".to_string())));
    let failure = run.record(Err(sqlx::Error::PoolClosed)).unwrap_err();
    assert_eq!(failure.statement, "CREATE TABLE t(id int)");
    assert!(matches!(failure.error, sqlx::Error::PoolClosed));
    assert_eq!(run.pending(), None);
    assert!(!run.is_finished());
    assert_eq!(run.succeeded(), 1);
    assert_eq!(run.commands().len(), 8);
}

#[test]
fn failure_to_begin_is_reported_as_begin_transaction() {
    let mut run = Migration::run_all(vec![], unreadable());
    let failure = run.record(Err(sqlx::Error::PoolTimedOut)).unwrap_err();
    assert_eq!(failure.statement, "BEGIN TRANSACTION");
    assert!(matches!(failure.error, sqlx::Error::PoolTimedOut));
}

#[test]
fn failure_to_record_is_reported_as_the_insert() {
    let mut db = Database::default();
    db.run_all(vec![]).unwrap();
    let twin = || Migration::new("twin").with_up("NOTE once");
    let failure = db.run_all(vec![twin(), twin()]).unwrap_err();
    assert_eq!(failure.statement, "INSERT INTO migrations (name) VALUES ($1)");
    assert_eq!(db.ledger(), vec!["initial", "twin"]);
}

#[test]
fn failure_to_forget_is_reported_as_the_delete() {
    let mut run = Migration::run_all(vec![a().debug(Build::Debug)], read(&["initial", "A"]));
    assert!(run.record(Ok(())).is_ok());
    assert!(run.record(Ok(())).is_ok());
    assert_eq!(run.pending(), Some(&Command::Forget("A".to_string())));
    let failure = run.record(Err(sqlx::Error::WorkerCrashed)).unwrap_err();
    assert_eq!(failure.statement, "DELETE FROM migrations WHERE name = $1");
    assert!(matches!(failure.error, sqlx::Error::WorkerCrashed));
}

#[test]
fn failure_to_commit_is_reported_as_commit_transaction() {
    let mut run = Migration::run_all(vec![], unreadable());
    for _ in 0..3 {
        assert!(run.record(Ok(())).is_ok());
    }
    assert_eq!(run.pending(), Some(&Command::Commit));
    let failure = run.record(Err(sqlx::Error::PoolClosed)).unwrap_err();
    assert_eq!(failure.statement, "COMMIT TRANSACTION");
    assert_eq!(run.pending(), None);
    assert!(!run.is_finished());
}

#[test]
fn run_finishes_when_every_command_succeeded() {
    let mut run = Migration::run_all(vec![a()], unreadable());
    let mut issued = Vec::new();
    while let Some(command) = run.pending() {
        assert_eq!(run.succeeded(), issued.len());
        issued.push(command.clone());
        assert!(!run.is_finished());
        assert!(run.record(Ok(())).is_ok());
    }
    assert!(run.is_finished());
    assert_eq!(run.succeeded(), 8);
    assert_eq!(issued, script(&run));
    assert_eq!(issued.len(), 8);
}

#[test]
fn message_names_the_statement_and_the_driver_error() {
    let failure =
        MigrationError { statement: "DROP TABLE t".to_string(), error: sqlx::Error::RowNotFound };
    assert_eq!(
        failure.to_string(),
        "Error executing sql \"DROP TABLE t\": no rows returned by a query that expected to return at least one row"
    );
    let failure = MigrationError {
        statement: String::new(),
        error: sqlx::Error::Protocol("boom".to_string()),
    };
    assert_eq!(
        failure.to_string(),
        "Error executing sql \"\": encountered unexpected or invalid data: boom"
    );
}

#[test]
fn describe_failure_joins_statement_and_detail() {
    assert_eq!(describe_failure("SELECT 1", "no"), "Error executing sql \"SELECT 1\": no");
    assert_eq!(describe_failure("", ""), "Error executing sql \"\": ");
}
