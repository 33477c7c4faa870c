//! The subcommands, each as the decisions and texts it computes.
pub mod build;
pub mod common;
pub mod copy;
pub mod develop;
pub mod diff;
pub mod eval;
pub mod flake;
pub mod fmt;
pub mod hash;
pub mod log;
pub mod os;
pub mod profile;
pub mod search;
pub mod registry;
pub mod repl;
pub mod run;
pub mod shell;
pub mod style;
