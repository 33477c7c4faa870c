//! `flake update`: the lock request it makes.
use vstd::prelude::*;
use crate::text::{views, owned};
use crate::cli::flake::lock::LockArgs;
use crate::cli::common::{parse_arg_pairs, arg_pairs};
use crate::nix::text_pairs;

verus! {

/// Options of `flake update`.
pub struct UpdateArgs {
    /// Flake reference.
    pub flake_ref: String,
    /// Inputs to update (all when none is given).
    pub inputs: Vec<String>,
    /// `--override-input INPUT FLAKE_REF` values, in pairs.
    pub override_inputs: Vec<String>,
}

/// The `flake lock` request of an update: all inputs when none is named,
/// else the named ones; overrides paired; never a dry run.
pub fn update_lock_args(args: UpdateArgs) -> (r: LockArgs)
    ensures
        r.flake_ref@ == args.flake_ref@,
        !r.dry_run,
        r.update_all == (args.inputs@.len() == 0),
        views(r.update_inputs@) == views(args.inputs@),
        text_pairs(r.override_inputs@) == arg_pairs(views(args.override_inputs@)),
{
    let override_inputs = parse_arg_pairs(&args.override_inputs);
    if args.inputs.len() == 0 {
        LockArgs {
            flake_ref: args.flake_ref,
            dry_run: false,
            update_all: true,
            update_inputs: args.inputs,
            override_inputs,
        }
    } else {
        LockArgs {
            flake_ref: args.flake_ref,
            dry_run: false,
            update_all: false,
            update_inputs: args.inputs,
            override_inputs,
        }
    }
}

/// What an update reports, from the number of inputs it changed (when it
/// ran), whether one input was named, and whether overrides were given.
pub fn update_message(updated: Option<usize>, named_input: bool, has_overrides: bool) -> (r: Option<String>)
    ensures
        match updated {
            None => r.is_none(),
            Some(n) => if n == 0 {
                if named_input {
                    r matches Some(m) && m@ == "Input is already up to date."@
                } else if !has_overrides {
                    r matches Some(m) && m@ == "All inputs are up to date."@
                } else {
                    r.is_none()
                }
            } else {
                r matches Some(m) && m@ == "Updated "@ + crate::numtext::decimal(n as nat) + " input(s)."@
            },
        },
{
    match updated {
        None => None,
        Some(n) => if n == 0 {
            if named_input {
                Some(String::from_str("Input is already up to date."))
            } else if !has_overrides {
                Some(String::from_str("All inputs are up to date."))
            } else {
                None
            }
        } else {
            let mut m = String::from_str("Updated ");
            let t = crate::numtext::u64_text(n as u64);
            m.append(t.as_str());
            m.append(" input(s).");
            Some(m)
        },
    }
}

} // verus!
