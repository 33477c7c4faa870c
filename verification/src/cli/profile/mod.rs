//! The `profile` subcommands.
pub mod common;
pub mod diff_closures;
pub mod history;
pub mod list;
pub mod outcome;

use vstd::prelude::*;

verus! {

/// The subcommands of `profile`.
pub enum ProfileCommand {
    List { json: bool },
    Add { installables: Vec<String>, priority: i32, refresh: bool, override_input: Vec<String> },
    Install { installables: Vec<String>, priority: i32, refresh: bool, override_input: Vec<String> },
    Remove { packages: Vec<String> },
    Upgrade { package: Option<String>, refresh: bool, override_input: Vec<String> },
    History,
    Rollback { to: Option<u32> },
    WipeHistory { older_than: Option<String>, dry_run: bool },
    DiffClosures,
}

/// Options of `profile`.
pub struct ProfileArgs {
    /// The profile to work on.
    pub profile: Option<String>,
    pub command: ProfileCommand,
}

} // verus!
