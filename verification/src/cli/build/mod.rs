//! The `build` command.
pub mod command;
