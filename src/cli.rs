//! The commands of the administration tool.
use vstd::prelude::*;

verus! {

/// A parsed command line.
#[derive(Debug, Clone, PartialEq, Eq)]
pub struct Cli {
    pub command: Commands,
}

/// The areas the tool manages.
#[derive(Debug, Clone, PartialEq, Eq)]
pub enum Commands {
    /// User accounts.
    User(UserArgs),
    /// The database schema.
    Database(DatabaseArgs),
    /// The HTTP server.
    Server(ServerArgs),
}

#[derive(Debug, Clone, PartialEq, Eq)]
pub struct UserArgs {
    pub action: UserAction,
}

/// What to do with user accounts.
#[derive(Debug, Clone, PartialEq, Eq)]
pub enum UserAction {
    Create { username: String, password: String, name: String },
    List { limit: u64 },
    ResetPassword { username: String, password: String },
    Toggle { username: String },
}

#[derive(Debug, Clone, PartialEq, Eq)]
pub struct DatabaseArgs {
    pub action: DatabaseAction,
}

/// What to do with the schema.
#[derive(Debug, Clone, Copy, PartialEq, Eq)]
pub enum DatabaseAction {
    /// Apply every pending migration.
    Migrate,
    /// Report the ledger and the applied migrations.
    Status,
}

#[derive(Debug, Clone, PartialEq, Eq)]
pub struct ServerArgs {
    pub action: ServerAction,
}

/// What to do with the server.
#[derive(Debug, Clone, PartialEq, Eq)]
pub enum ServerAction {
    Start { port: u16, host: String },
    GenerateJwtSecret,
}

impl Cli {
    /// Whether the command starts the server rather than running one task.
    pub fn starts_server(&self) -> (r: bool)
        ensures
            r == (self.command matches Commands::Server(a) && a.action is Start),
    {
        match &self.command {
            Commands::Server(a) => match &a.action {
                ServerAction::Start { .. } => true,
                ServerAction::GenerateJwtSecret => false,
            },
            _ => false,
        }
    }

    /// Whether the schema must be migrated before the command runs: user
    /// management works on the users table, which migrations create.
    pub fn needs_migrated_schema(&self) -> (r: bool)
        ensures
            r == (self.command is User),
    {
        match &self.command {
            Commands::User(_) => true,
            _ => false,
        }
    }
}

} // verus!
