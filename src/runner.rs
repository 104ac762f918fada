//! The migration runner as a state machine.
//!
//! The runner never touches the store itself. Each call of [`Migrator::step`]
//! takes the store's reply to the previous command and returns the next
//! command: create the ledger table, ask whether a version is applied, read a
//! migration's text, execute one statement, record a version, or stop with
//! success or an error. Whoever drives it performs the commands, in order.
use vstd::prelude::*;
use crate::catalog::{def_views, order_catalog, sorted_by_version, MigrationDefinition};
use crate::splitter::{split_statements, statements, views};

verus! {

/// Why a migration run stopped.
#[derive(Debug, Clone, PartialEq, Eq)]
pub enum MigrationError {
    /// The store's backing file or directories could not be created.
    Bootstrap { message: String },
    /// The store could not be reached.
    Connect { message: String },
    /// The migration directory exists but could not be listed.
    Discovery { message: String },
    /// The ledger table could not be created, queried or written.
    Ledger { message: String },
    /// A migration's file could not be read.
    Read { version: String, message: String },
    /// Statement `index` (counted from 1) of migration `version` failed.
    Execution { version: String, index: usize, message: String },
    /// A reply that does not answer the command last issued.
    Protocol,
}

/// The mathematical form of a [`MigrationError`].
pub enum ErrorView {
    Bootstrap(Seq<char>),
    Connect(Seq<char>),
    Discovery(Seq<char>),
    Ledger(Seq<char>),
    Read(Seq<char>, Seq<char>),
    Execution(Seq<char>, nat, Seq<char>),
    Protocol,
}

impl View for MigrationError {
    type V = ErrorView;

    open spec fn view(&self) -> ErrorView {
        match self {
            MigrationError::Bootstrap { message } => ErrorView::Bootstrap(message@),
            MigrationError::Connect { message } => ErrorView::Connect(message@),
            MigrationError::Discovery { message } => ErrorView::Discovery(message@),
            MigrationError::Ledger { message } => ErrorView::Ledger(message@),
            MigrationError::Read { version, message } => ErrorView::Read(version@, message@),
            MigrationError::Execution { version, index, message } => ErrorView::Execution(
                version@,
                *index as nat,
                message@,
            ),
            MigrationError::Protocol => ErrorView::Protocol,
        }
    }
}

/// What the store is asked to do next.
#[derive(Debug, Clone, PartialEq, Eq)]
pub enum Command {
    /// Create the ledger table if it does not exist.
    CreateLedger,
    /// Tell whether this version is in the ledger.
    CheckApplied(String),
    /// Read the text of the migration at this location.
    ReadContent(String),
    /// Execute one statement; `index` counts from 1 within its migration.
    Execute { version: String, index: usize, statement: String },
    /// Add this version to the ledger.
    Record(String),
    /// Every pending migration was applied.
    Succeeded,
    /// The run stopped on this error.
    Failed(MigrationError),
}

/// The mathematical form of a [`Command`].
pub enum CommandView {
    CreateLedger,
    CheckApplied(Seq<char>),
    ReadContent(Seq<char>),
    Execute(Seq<char>, nat, Seq<char>),
    Record(Seq<char>),
    Succeeded,
    Failed(ErrorView),
}

impl View for Command {
    type V = CommandView;

    open spec fn view(&self) -> CommandView {
        match self {
            Command::CreateLedger => CommandView::CreateLedger,
            Command::CheckApplied(v) => CommandView::CheckApplied(v@),
            Command::ReadContent(l) => CommandView::ReadContent(l@),
            Command::Execute { version, index, statement } => CommandView::Execute(
                version@,
                *index as nat,
                statement@,
            ),
            Command::Record(v) => CommandView::Record(v@),
            Command::Succeeded => CommandView::Succeeded,
            Command::Failed(e) => CommandView::Failed(e@),
        }
    }
}

/// The store's answer to the last command.
#[derive(Debug, Clone, PartialEq, Eq)]
pub enum Reply {
    /// Nothing was asked yet.
    Start,
    /// The command completed.
    Done,
    /// Whether the version asked about is in the ledger.
    Applied(bool),
    /// The text of the migration file asked for.
    Content(String),
    /// The command failed with this message.
    Error(String),
}

/// The mathematical form of a [`Reply`].
pub enum ReplyView {
    Start,
    Done,
    Applied(bool),
    Content(Seq<char>),
    Error(Seq<char>),
}

impl View for Reply {
    type V = ReplyView;

    open spec fn view(&self) -> ReplyView {
        match self {
            Reply::Start => ReplyView::Start,
            Reply::Done => ReplyView::Done,
            Reply::Applied(b) => ReplyView::Applied(*b),
            Reply::Content(t) => ReplyView::Content(t@),
            Reply::Error(m) => ReplyView::Error(m@),
        }
    }
}

/// Where the runner stands.
#[derive(Debug, Clone, Copy, PartialEq, Eq)]
pub enum Phase {
    /// Nothing issued yet.
    Idle,
    /// Waiting for the ledger table.
    CreatingLedger,
    /// Waiting to learn whether the current migration is applied.
    Checking,
    /// Waiting for the current migration's text.
    Reading,
    /// Waiting for the current statement to execute.
    Executing,
    /// Waiting for the current migration to be recorded.
    Recording,
    /// The run has ended.
    Finished,
}

/// The mathematical form of a [`Migrator`].
pub struct MigratorView {
    pub catalog: Seq<(Seq<char>, Seq<char>)>,
    pub phase: Phase,
    pub cursor: nat,
    pub statements: Seq<Seq<char>>,
    pub position: nat,
}

/// Applies the pending migrations of a catalog, one command at a time.
pub struct Migrator {
    catalog: Vec<MigrationDefinition>,
    phase: Phase,
    cursor: usize,
    statements: Vec<String>,
    position: usize,
}

impl View for Migrator {
    type V = MigratorView;

    closed spec fn view(&self) -> MigratorView {
        MigratorView {
            catalog: def_views(self.catalog@),
            phase: self.phase,
            cursor: self.cursor as nat,
            statements: views(self.statements@),
            position: self.position as nat,
        }
    }
}

/// The well-formed runner states.
pub open spec fn wf(m: MigratorView) -> bool {
    &&& sorted_by_version(m.catalog)
    &&& m.cursor <= m.catalog.len()
    &&& m.position <= m.statements.len()
    &&& match m.phase {
        Phase::Idle | Phase::CreatingLedger => m.cursor == 0,
        Phase::Checking | Phase::Reading | Phase::Recording => m.cursor < m.catalog.len(),
        Phase::Executing => m.cursor < m.catalog.len() && m.position < m.statements.len(),
        _ => true,
    }
}

/// The state that asks about migration `i`, or ends the run when none is left.
pub open spec fn check_from(m: MigratorView, i: nat) -> (MigratorView, CommandView) {
    if i >= m.catalog.len() {
        (MigratorView { phase: Phase::Finished, cursor: m.catalog.len(), ..m }, CommandView::Succeeded)
    } else {
        (
            MigratorView { phase: Phase::Checking, cursor: i, ..m },
            CommandView::CheckApplied(m.catalog[i as int].0),
        )
    }
}

/// The state that executes statement `p` of the current migration, or records
/// the migration when none is left.
pub open spec fn execute_from(m: MigratorView, p: nat) -> (MigratorView, CommandView) {
    if p >= m.statements.len() {
        (
            MigratorView { phase: Phase::Recording, position: m.statements.len(), ..m },
            CommandView::Record(m.catalog[m.cursor as int].0),
        )
    } else {
        (
            MigratorView { phase: Phase::Executing, position: p, ..m },
            CommandView::Execute(m.catalog[m.cursor as int].0, p + 1, m.statements[p as int]),
        )
    }
}

/// The run stops with error `e`.
pub open spec fn fail_with(m: MigratorView, e: ErrorView) -> (MigratorView, CommandView) {
    (MigratorView { phase: Phase::Finished, ..m }, CommandView::Failed(e))
}

/// One transition of the runner: the next state and command, given a reply.
pub open spec fn next(m: MigratorView, r: ReplyView) -> (MigratorView, CommandView) {
    match m.phase {
        Phase::Idle => (MigratorView { phase: Phase::CreatingLedger, ..m }, CommandView::CreateLedger),
        Phase::CreatingLedger => match r {
            ReplyView::Done => check_from(m, 0),
            ReplyView::Error(e) => fail_with(m, ErrorView::Ledger(e)),
            _ => fail_with(m, ErrorView::Protocol),
        },
        Phase::Checking => match r {
            ReplyView::Applied(true) => check_from(m, m.cursor + 1),
            ReplyView::Applied(false) => (
                MigratorView { phase: Phase::Reading, ..m },
                CommandView::ReadContent(m.catalog[m.cursor as int].1),
            ),
            ReplyView::Error(e) => fail_with(m, ErrorView::Ledger(e)),
            _ => fail_with(m, ErrorView::Protocol),
        },
        Phase::Reading => match r {
            ReplyView::Content(t) => execute_from(MigratorView { statements: statements(t), ..m }, 0),
            ReplyView::Error(e) => fail_with(m, ErrorView::Read(m.catalog[m.cursor as int].0, e)),
            _ => fail_with(m, ErrorView::Protocol),
        },
        Phase::Executing => match r {
            ReplyView::Done => execute_from(m, m.position + 1),
            ReplyView::Error(e) => fail_with(
                m,
                ErrorView::Execution(m.catalog[m.cursor as int].0, m.position + 1, e),
            ),
            _ => fail_with(m, ErrorView::Protocol),
        },
        Phase::Recording => match r {
            ReplyView::Done => check_from(m, m.cursor + 1),
            ReplyView::Error(e) => fail_with(m, ErrorView::Ledger(e)),
            _ => fail_with(m, ErrorView::Protocol),
        },
        Phase::Finished => fail_with(m, ErrorView::Protocol),
    }
}

/// The runner before any command: over the given migrations, in ascending
/// order of version.
pub open spec fn initial(m: MigratorView) -> bool {
    &&& m.phase == Phase::Idle
    &&& m.cursor == 0
    &&& m.statements.len() == 0
    &&& m.position == 0
}

/// The runner works through the migrations in catalog order: no step moves
/// back to an earlier migration, and every command about a migration names
/// the one the runner stands at after the step.
pub proof fn lemma_in_catalog_order(m: MigratorView, r: ReplyView)
    requires
        wf(m),
    ensures
        ({
            let (m2, c) = next(m, r);
            &&& m2.catalog == m.catalog
            &&& m2.cursor >= m.cursor
            &&& (c matches CommandView::CheckApplied(v) ==> m2.cursor < m2.catalog.len() && v
                == m2.catalog[m2.cursor as int].0)
            &&& (c matches CommandView::ReadContent(l) ==> m2.cursor < m2.catalog.len() && l
                == m2.catalog[m2.cursor as int].1)
            &&& (c matches CommandView::Execute(v, _, _) ==> m2.cursor < m2.catalog.len() && v
                == m2.catalog[m2.cursor as int].0)
            &&& (c matches CommandView::Record(v) ==> m2.cursor < m2.catalog.len() && v
                == m2.catalog[m2.cursor as int].0)
        }),
{
}

impl Migrator {
    pub open spec fn well_formed(&self) -> bool {
        wf(self@)
    }

    /// A runner over the given migrations, which it orders by version.
    pub fn new(defs: Vec<MigrationDefinition>) -> (r: Migrator)
        ensures
            r.well_formed(),
            initial(r@),
            r@.catalog.to_multiset() == def_views(defs@).to_multiset(),
            r@.catalog.len() == defs@.len(),
            sorted_by_version(r@.catalog),
    {
        let catalog = order_catalog(defs);
        let r = Migrator {
            catalog,
            phase: Phase::Idle,
            cursor: 0,
            statements: Vec::new(),
            position: 0,
        };
        assert(views(r.statements@) =~= Seq::<Seq<char>>::empty());
        r
    }

    /// Whether the run has ended.
    pub fn is_finished(&self) -> (r: bool)
        ensures
            r == (self@.phase == Phase::Finished),
    {
        match self.phase {
            Phase::Finished => true,
            _ => false,
        }
    }

    fn check_from_exec(&mut self, i: usize) -> (c: Command)
        requires
            wf(old(self)@),
            i <= old(self)@.catalog.len(),
        ensures
            wf(final(self)@),
            (final(self)@, c@) == check_from(old(self)@, i as nat),
    {
        if i >= self.catalog.len() {
            self.phase = Phase::Finished;
            self.cursor = self.catalog.len();
            Command::Succeeded
        } else {
            self.phase = Phase::Checking;
            self.cursor = i;
            Command::CheckApplied(self.catalog[i].version.clone())
        }
    }

    fn execute_from_exec(&mut self, p: usize) -> (c: Command)
        requires
            wf(old(self)@),
            old(self)@.cursor < old(self)@.catalog.len(),
            p <= old(self)@.statements.len(),
        ensures
            wf(final(self)@),
            (final(self)@, c@) == execute_from(old(self)@, p as nat),
    {
        let version = self.catalog[self.cursor].version.clone();
        if p >= self.statements.len() {
            self.phase = Phase::Recording;
            self.position = self.statements.len();
            Command::Record(version)
        } else {
            self.phase = Phase::Executing;
            self.position = p;
            Command::Execute { version, index: p + 1, statement: self.statements[p].clone() }
        }
    }

    fn fail_exec(&mut self, e: MigrationError) -> (c: Command)
        requires
            wf(old(self)@),
        ensures
            wf(final(self)@),
            (final(self)@, c@) == fail_with(old(self)@, e@),
    {
        self.phase = Phase::Finished;
        Command::Failed(e)
    }

    /// Takes the store's reply to the last command and returns the next one.
    pub fn step(&mut self, reply: Reply) -> (c: Command)
        requires
            old(self).well_formed(),
        ensures
            final(self).well_formed(),
            (final(self)@, c@) == next(old(self)@, reply@),
    {
        match self.phase {
            Phase::Idle => {
                self.phase = Phase::CreatingLedger;
                Command::CreateLedger
            },
            Phase::CreatingLedger => match reply {
                Reply::Done => self.check_from_exec(0),
                Reply::Error(message) => self.fail_exec(MigrationError::Ledger { message }),
                _ => self.fail_exec(MigrationError::Protocol),
            },
            Phase::Checking => match reply {
                Reply::Applied(true) => {
                    let n = self.catalog.len();
                    assert(self.cursor < n);
                    let i = self.cursor + 1;
                    self.check_from_exec(i)
                },
                Reply::Applied(false) => {
                    self.phase = Phase::Reading;
                    Command::ReadContent(self.catalog[self.cursor].location.clone())
                },
                Reply::Error(message) => self.fail_exec(MigrationError::Ledger { message }),
                _ => self.fail_exec(MigrationError::Protocol),
            },
            Phase::Reading => match reply {
                Reply::Content(text) => {
                    self.statements = split_statements(text.as_str());
                    self.position = 0;
                    self.execute_from_exec(0)
                },
                Reply::Error(message) => {
                    let version = self.catalog[self.cursor].version.clone();
                    self.fail_exec(MigrationError::Read { version, message })
                },
                _ => self.fail_exec(MigrationError::Protocol),
            },
            Phase::Executing => match reply {
                Reply::Done => {
                    let n = self.statements.len();
                    assert(self.position < n);
                    let p = self.position + 1;
                    self.execute_from_exec(p)
                },
                Reply::Error(message) => {
                    let version = self.catalog[self.cursor].version.clone();
                    let n = self.statements.len();
                    assert(self.position < n);
                    let index = self.position + 1;
                    self.fail_exec(MigrationError::Execution { version, index, message })
                },
                _ => self.fail_exec(MigrationError::Protocol),
            },
            Phase::Recording => match reply {
                Reply::Done => {
                    let n = self.catalog.len();
                    assert(self.cursor < n);
                    let i = self.cursor + 1;
                    self.check_from_exec(i)
                },
                Reply::Error(message) => self.fail_exec(MigrationError::Ledger { message }),
                _ => self.fail_exec(MigrationError::Protocol),
            },
            Phase::Finished => self.fail_exec(MigrationError::Protocol),
        }
    }
}

} // verus!
