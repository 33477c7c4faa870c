//! `copy`: the `nix copy` command that copies a package to another store.
use vstd::prelude::*;
use crate::text::owned;
use crate::command::NixCommand;
use crate::nix::ResolvedInstallable;
use crate::cli::build::command::remote_ref;

verus! {

/// Options of `copy`.
pub struct CopyArgs {
    /// Installable reference.
    pub installable: String,
    /// Destination store URL.
    pub to: String,
    /// Do not check signatures.
    pub no_check_sigs: bool,
}

/// The arguments of `nix copy` for `what`.
pub open spec fn copy_argv(a: CopyArgs, what: Seq<char>) -> Seq<Seq<char>> {
    seq!["copy"@, "--to"@, a.to@, what] + if a.no_check_sigs {
        seq!["--no-check-sigs"@]
    } else {
        Seq::empty()
    }
}

/// The `nix copy` command that copies `what` (a flake output or a store path).
pub fn copy_command(args: &CopyArgs, what: &str) -> (r: NixCommand)
    ensures
        r.prog() == "nix"@,
        r.argv() == copy_argv(*args, what@),
{
    let mut cmd = NixCommand::new("nix");
    cmd.arg("copy");
    cmd.arg("--to");
    cmd.arg(args.to.as_str());
    cmd.arg(what);
    if args.no_check_sigs {
        cmd.arg("--no-check-sigs");
    }
    assert(cmd.argv() =~= copy_argv(*args, what@));
    cmd
}

/// For a remote installable, the `nix copy` of its flake output; nothing
/// for a local one, whose store path is copied once it is built.
pub fn cmd_copy(args: &CopyArgs, resolved: &ResolvedInstallable) -> (r: Option<NixCommand>)
    ensures
        resolved.is_local ==> r.is_none(),
        !resolved.is_local ==> (r matches Some(c) && c.prog() == "nix"@ && c.argv() == copy_argv(
            *args,
            remote_ref(*resolved) + "#"@ + resolved.attr_part@,
        )),
{
    if resolved.is_local {
        return None;
    }
    let mut full = match &resolved.flake_ref {
        Some(f) => owned(f.as_str()),
        None => String::new(),
    };
    full.append("#");
    full.append(resolved.attr_part.as_str());
    Some(copy_command(args, full.as_str()))
}

} // verus!
