//! The customer tracker's verified core.
//!
//! Its centre is the schema migration engine: [`splitter`] turns a migration
//! file into statements, [`catalog`] finds and orders migrations, [`runner`]
//! decides, one command at a time, what the store must do to apply the
//! pending ones, [`status`] reports the ledger, and [`model`] states what
//! whole runs guarantee. Around it stand the service's settings, command
//! line, sign-in data, tracking vocabulary, paging and input checks.
pub mod auth;
pub mod catalog;
pub mod cli;
pub mod config;
pub mod migrator;
pub mod model;
pub mod pagination;
pub mod runner;
pub mod splitter;
pub mod status;
pub mod text;
pub mod tracking;
pub mod validation;
