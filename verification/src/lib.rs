//! Core logic of a note-taking application whose shared folder is kept in
//! sync with a remote git repository.
//!
//! The heart of the crate is the folder synchronization engine: a trigger
//! dispatcher that debounces change events, and a sync pipeline
//! (bootstrap -> commit -> pull -> push) expressed as a state machine that
//! asks its host to run one git command or file operation at a time and is
//! fed the outcome.  Everything the engine decides — validation, error
//! classification, conflict resolution, retry policy — is verified here;
//! the host process only executes the requested commands.

pub mod text;
pub mod folders;
pub mod config;
pub mod status;
pub mod classify;
pub mod conflict;
pub mod engine;
pub mod dispatch;
pub mod index;
pub mod notes;
pub mod dates;
pub mod themes;
pub mod apple;
pub mod share;
pub mod state;
pub mod ai;
