//! Flake subcommands.
pub mod check;
pub mod common;
pub mod init;
pub mod lock;
pub mod metadata;
pub mod show;
pub mod update;

use vstd::prelude::*;

verus! {

/// The subcommands of `flake`.
pub enum FlakeCommands {
    Check(check::CheckArgs),
    Init(init::InitArgs),
    Lock(lock::LockArgs),
    Metadata(metadata::MetadataArgs),
    New(init::NewArgs),
    Show(show::ShowArgs),
    Update(update::UpdateArgs),
}

/// Options of `flake`.
pub struct FlakeArgs {
    pub command: FlakeCommands,
}

} // verus!
