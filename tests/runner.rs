use std::collections::HashMap;

use customer_tracker::catalog::MigrationDefinition;
use customer_tracker::runner::{Command, MigrationError, Migrator, Reply};
use customer_tracker::status::StatusReport;

/// An in-memory store that answers the runner's commands.
struct FakeStore {
    ledger_exists: bool,
    ledger: Vec<String>,
    executed: Vec<String>,
    files: HashMap<String, String>,
    bad: Vec<String>,
}

impl FakeStore {
    fn new(files: &[(&str, &str)]) -> FakeStore {
        let mut map = HashMap::new();
        for (name, text) in files {
            map.insert(format!("migrations/{}.sql", name), text.to_string());
        }
        FakeStore { ledger_exists: false, ledger: Vec::new(), executed: Vec::new(), files: map, bad: Vec::new() }
    }

    /// Definitions in the order given, as a directory listing might return them.
    fn listing(&self, names: &[&str]) -> Vec<MigrationDefinition> {
        names
            .iter()
            .map(|n| MigrationDefinition { version: n.to_string(), location: format!("migrations/{}.sql", n) })
            .collect()
    }

    fn migrate(&mut self, defs: Vec<MigrationDefinition>) -> Result<(), MigrationError> {
        let mut m = Migrator::new(defs);
        let mut reply = Reply::Start;
        loop {
            reply = match m.step(reply) {
                Command::CreateLedger => {
                    self.ledger_exists = true;
                    Reply::Done
                }
                Command::CheckApplied(v) => Reply::Applied(self.ledger.contains(&v)),
                Command::ReadContent(loc) => match self.files.get(&loc) {
                    Some(t) => Reply::Content(t.clone()),
                    None => Reply::Error("no such file".to_string()),
                },
                Command::Execute { statement, .. } => {
                    self.executed.push(statement.clone());
                    if self.bad.contains(&statement) {
                        Reply::Error("syntax error".to_string())
                    } else {
                        Reply::Done
                    }
                }
                Command::Record(v) => {
                    if self.ledger.contains(&v) {
                        Reply::Error("duplicate version".to_string())
                    } else {
                        self.ledger.push(v);
                        Reply::Done
                    }
                }
                Command::Succeeded => return Ok(()),
                Command::Failed(e) => return Err(e),
            };
        }
    }

    fn status(&self) -> StatusReport {
        let mut rows = self.ledger.clone();
        rows.reverse();
        StatusReport::new(self.ledger_exists, rows)
    }
}

#[test]
fn second_migrate_does_nothing() {
    let mut store = FakeStore::new(&[("001_init", "CREATE TABLE a (id INT);"), ("002_seed", "INSERT INTO a VALUES (1);")]);
    let names = ["001_init", "002_seed"];
    assert_eq!(store.migrate(store.listing(&names)), Ok(()));
    let executed = store.executed.clone();
    let ledger = store.ledger.clone();
    assert_eq!(executed.len(), 2);
    assert_eq!(store.migrate(store.listing(&names)), Ok(()));
    assert_eq!(store.executed, executed);
    assert_eq!(store.ledger, ledger);
}

#[test]
fn reverse_listing_applies_in_version_order() {
    let mut store = FakeStore::new(&[("002_seed", "INSERT INTO a VALUES (1);"), ("001_init", "CREATE TABLE a (id INT);")]);
    assert_eq!(store.migrate(store.listing(&["002_seed", "001_init"])), Ok(()));
    assert_eq!(store.executed, vec!["CREATE TABLE a (id INT)".to_string(), "INSERT INTO a VALUES (1)".to_string()]);
    assert_eq!(store.ledger, vec!["001_init".to_string(), "002_seed".to_string()]);
}

#[test]
fn failing_statement_is_contained() {
    let mut store = FakeStore::new(&[
        ("001_ok", "CREATE TABLE ok (id INT);"),
        ("002_bad", "CREATE TABLE first (id INT);\nCREATE TABLEX broken;"),
    ]);
    store.bad.push("CREATE TABLEX broken".to_string());
    let r = store.migrate(store.listing(&["001_ok", "002_bad"]));
    assert_eq!(
        r,
        Err(MigrationError::Execution {
            version: "002_bad".to_string(),
            index: 2,
            message: "syntax error".to_string()
        })
    );
    assert_eq!(store.ledger, vec!["001_ok".to_string()]);
    assert!(store.executed.contains(&"CREATE TABLE first (id INT)".to_string()));
    assert_eq!(store.executed.len(), 3);
}

#[test]
fn failed_migration_is_retried_from_its_first_statement() {
    let mut store = FakeStore::new(&[("001_a", "CREATE TABLE x (id INT);\nBROKEN;")]);
    store.bad.push("BROKEN".to_string());
    assert!(store.migrate(store.listing(&["001_a"])).is_err());
    store.bad.clear();
    assert_eq!(store.migrate(store.listing(&["001_a"])), Ok(()));
    assert_eq!(
        store.executed,
        vec![
            "CREATE TABLE x (id INT)".to_string(),
            "BROKEN".to_string(),
            "CREATE TABLE x (id INT)".to_string(),
            "BROKEN".to_string()
        ]
    );
    assert_eq!(store.ledger, vec!["001_a".to_string()]);
}

#[test]
fn later_migrations_are_not_attempted_after_a_failure() {
    let mut store = FakeStore::new(&[("001_a", "BAD;"), ("002_b", "CREATE TABLE b (id INT);")]);
    store.bad.push("BAD".to_string());
    let r = store.migrate(store.listing(&["001_a", "002_b"]));
    assert!(matches!(r, Err(MigrationError::Execution { index: 1, .. })));
    assert_eq!(store.executed, vec!["BAD".to_string()]);
    assert!(store.ledger.is_empty());
}

#[test]
fn fresh_status_has_no_ledger() {
    let store = FakeStore::new(&[]);
    let s = store.status();
    assert!(!s.ledger_exists);
    assert!(s.applied.is_empty());
}

#[test]
fn status_without_ledger_ignores_rows() {
    let s = StatusReport::new(false, vec!["001".to_string()]);
    assert!(!s.ledger_exists);
    assert!(s.applied.is_empty());
}

#[test]
fn post_migrate_status_lists_versions_ascending() {
    let mut store = FakeStore::new(&[("002_seed", "INSERT INTO a VALUES (1);"), ("001_ok", "CREATE TABLE a (id INT);")]);
    assert_eq!(store.migrate(store.listing(&["002_seed", "001_ok"])), Ok(()));
    let s = store.status();
    assert!(s.ledger_exists);
    assert_eq!(s.applied, vec!["001_ok".to_string(), "002_seed".to_string()]);
}

#[test]
fn status_sorts_rows() {
    let s = StatusReport::new(true, vec!["b".to_string(), "c".to_string(), "a".to_string()]);
    assert!(s.ledger_exists);
    assert_eq!(s.applied, vec!["a".to_string(), "b".to_string(), "c".to_string()]);
}

#[test]
fn empty_catalog_creates_ledger_and_succeeds() {
    let mut store = FakeStore::new(&[]);
    assert_eq!(store.migrate(Vec::new()), Ok(()));
    assert!(store.ledger_exists);
    let s = store.status();
    assert!(s.ledger_exists);
    assert!(s.applied.is_empty());
}

#[test]
fn migration_without_statements_is_recorded() {
    let mut store = FakeStore::new(&[("001_empty", "-- nothing yet\n")]);
    assert_eq!(store.migrate(store.listing(&["001_empty"])), Ok(()));
    assert!(store.executed.is_empty());
    assert_eq!(store.ledger, vec!["001_empty".to_string()]);
}

#[test]
fn unreadable_migration_is_a_read_error() {
    let mut store = FakeStore::new(&[]);
    let r = store.migrate(store.listing(&["001_missing"]));
    assert_eq!(
        r,
        Err(MigrationError::Read { version: "001_missing".to_string(), message: "no such file".to_string() })
    );
    assert!(store.ledger.is_empty());
}

#[test]
fn commands_follow_the_protocol() {
    let defs = vec![MigrationDefinition { version: "001_a".to_string(), location: "m/001_a.sql".to_string() }];
    let mut m = Migrator::new(defs);
    assert_eq!(m.step(Reply::Start), Command::CreateLedger);
    assert_eq!(m.step(Reply::Done), Command::CheckApplied("001_a".to_string()));
    assert_eq!(m.step(Reply::Applied(false)), Command::ReadContent("m/001_a.sql".to_string()));
    assert_eq!(
        m.step(Reply::Content("CREATE TABLE a (id INT);\nCREATE INDEX i ON a (id);".to_string())),
        Command::Execute { version: "001_a".to_string(), index: 1, statement: "CREATE TABLE a (id INT)".to_string() }
    );
    assert_eq!(
        m.step(Reply::Done),
        Command::Execute { version: "001_a".to_string(), index: 2, statement: "CREATE INDEX i ON a (id)".to_string() }
    );
    assert_eq!(m.step(Reply::Done), Command::Record("001_a".to_string()));
    assert!(!m.is_finished());
    assert_eq!(m.step(Reply::Done), Command::Succeeded);
    assert!(m.is_finished());
    assert_eq!(m.step(Reply::Done), Command::Failed(MigrationError::Protocol));
}

#[test]
fn ledger_failures_stop_the_run() {
    let defs = vec![MigrationDefinition { version: "001_a".to_string(), location: "m/001_a.sql".to_string() }];
    let mut m = Migrator::new(defs);
    assert_eq!(m.step(Reply::Start), Command::CreateLedger);
    assert_eq!(
        m.step(Reply::Error("disk full".to_string())),
        Command::Failed(MigrationError::Ledger { message: "disk full".to_string() })
    );
}

#[test]
fn record_failure_is_a_ledger_error() {
    let defs = vec![MigrationDefinition { version: "001_a".to_string(), location: "m/001_a.sql".to_string() }];
    let mut m = Migrator::new(defs);
    m.step(Reply::Start);
    m.step(Reply::Done);
    m.step(Reply::Applied(false));
    assert_eq!(m.step(Reply::Content(String::new())), Command::Record("001_a".to_string()));
    assert_eq!(
        m.step(Reply::Error("UNIQUE constraint failed".to_string())),
        Command::Failed(MigrationError::Ledger { message: "UNIQUE constraint failed".to_string() })
    );
}

#[test]
fn unexpected_reply_is_a_protocol_error() {
    let defs = vec![MigrationDefinition { version: "001_a".to_string(), location: "m/001_a.sql".to_string() }];
    let mut m = Migrator::new(defs);
    m.step(Reply::Start);
    assert_eq!(m.step(Reply::Applied(true)), Command::Failed(MigrationError::Protocol));
}
