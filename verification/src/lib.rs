//! Command-line front end logic for a Nix wrapper.
use vstd::prelude::*;

pub mod json;
pub mod text;
pub mod numtext;
pub mod order;
pub mod assoc;
pub mod command;
pub mod nix;
pub mod paint;
pub mod profile;
pub mod cli;

verus! {
} // verus!
