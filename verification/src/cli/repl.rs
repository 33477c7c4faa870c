//! `repl`: the REPL a flake reference opens.
use vstd::prelude::*;
use crate::text::owned;
use crate::command::NixCommand;
use crate::nix::ResolvedInstallable;

verus! {

/// Options of `repl`.
pub struct ReplArgs {
    /// Flake reference to load.
    pub flake_ref: Option<String>,
}

/// How `repl` opens its REPL.
pub enum ReplPlan {
    /// A plain `nix repl`, or one handed the remote flake.
    Nix(NixCommand),
    /// The REPL of the local flake (after its lock is ensured).
    Local,
}

/// How `repl` opens its REPL: a plain `nix repl` without a flake reference;
/// `nix repl` with the resolved reference (else the one given) for a remote
/// flake; the local flake's REPL otherwise.
pub fn cmd_repl(args: &ReplArgs, resolved: &Option<ResolvedInstallable>) -> (r: ReplPlan)
    requires
        args.flake_ref is Some ==> resolved is Some,
    ensures
        args.flake_ref is None ==> (r matches ReplPlan::Nix(c) && c.prog() == "nix"@ && c.argv() == seq!["repl"@]),
        args.flake_ref matches Some(f) ==> match resolved {
            Some(res) => if res.is_local {
                r is Local
            } else {
                r matches ReplPlan::Nix(c) && c.prog() == "nix"@ && c.argv() == seq![
                    "repl"@,
                    match res.flake_ref {
                        Some(x) => x@,
                        None => f@,
                    },
                ]
            },
            None => false,
        },
{
    match &args.flake_ref {
        None => {
            let mut cmd = NixCommand::new("nix");
            cmd.arg("repl");
            assert(cmd.argv() =~= seq!["repl"@]);
            ReplPlan::Nix(cmd)
        },
        Some(f) => match resolved {
            Some(res) => {
                if res.is_local {
                    ReplPlan::Local
                } else {
                    let full = match &res.flake_ref {
                        Some(x) => owned(x.as_str()),
                        None => owned(f.as_str()),
                    };
                    let mut cmd = NixCommand::new("nix");
                    cmd.arg("repl");
                    cmd.arg(full.as_str());
                    assert(cmd.argv() =~= seq!["repl"@, full@]);
                    ReplPlan::Nix(cmd)
                }
            },
            None => ReplPlan::Local,
        },
    }
}

} // verus!
