//! Discovery and ranking of software project roots.
//!
//! - `walker` and `scanner`: the walk over one root as a state machine (the caller lists each
//!   directory it asks for), with exclusion, hidden-directory and depth rules, classification by
//!   a fixed precedence table, and the fail-fast join of a batch of roots.
//! - `exclude`: exact and glob exclusion of directory names and of project paths.
//! - `query`: case-insensitive path matching and the two-pass ranked query.
//! - `catalog`: the known projects, one per path, with their access history.
//! - `config`, `env`, `docs`: merging and checking of settings.
//! - `types`, `path`, `utils`, `shell`, `cli`: data types and helpers.

pub mod types;
pub mod path;
pub mod exclude;
pub mod walker;
pub mod scanner;
pub mod query;
pub mod catalog;
pub mod utils;
pub mod config;
pub mod env;
pub mod shell;
pub mod cli;
pub mod docs;
