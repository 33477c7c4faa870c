//! `run`: what is run for an installable.
use vstd::prelude::*;
use crate::text::{views, owned, cat};
use crate::command::NixCommand;
use crate::nix::{text_option, push_text_option};

verus! {

/// Options of `run`.
pub struct RunArgs {
    /// Installable reference.
    pub installable: String,
    /// Arguments of the program.
    pub args: Vec<String>,
    /// `--arg NAME EXPR` values, in pairs.
    pub extra_args: Vec<String>,
    /// `--argstr NAME VALUE` values, in pairs.
    pub extra_argstrs: Vec<String>,
    pub store: Option<String>,
}

/// The arguments of the `nix run` a remote installable is handed to.
pub open spec fn remote_run_argv(a: RunArgs, full_ref: Seq<char>) -> Seq<Seq<char>> {
    seq!["run"@, full_ref] + text_option("--store"@, a.store) + if a.args@.len() > 0 {
        seq!["--"@] + views(a.args@)
    } else {
        Seq::empty()
    }
}

/// The `nix run` a remote installable (`flake_ref#attr_part`) is handed to.
pub fn remote_run_command(args: &RunArgs, flake_ref: &str, attr_part: &str) -> (r: NixCommand)
    ensures
        r.prog() == "nix"@,
        r.argv() == remote_run_argv(*args, flake_ref@ + "#"@ + attr_part@),
{
    let mut full = owned(flake_ref);
    full.append("#");
    full.append(attr_part);
    let mut cmd = NixCommand::new("nix");
    cmd.arg("run");
    cmd.arg(full.as_str());
    push_text_option(&mut cmd, "--store", &args.store);
    if args.args.len() > 0 {
        cmd.arg("--");
        cmd.args(&args.args);
    }
    assert(cmd.argv() =~= remote_run_argv(*args, flake_ref@ + "#"@ + attr_part@));
    cmd
}

/// The app attribute tried first: `apps.<system>.<name>`, with `default`
/// for an empty name.
pub fn app_attr(system: &str, attr_part: &str) -> (r: String)
    ensures
        r@ == "apps."@ + system@ + "."@ + if attr_part@.len() == 0 {
            "default"@
        } else {
            attr_part@
        },
{
    let mut r = String::from_str("apps.");
    r.append(system);
    r.append(".");
    if attr_part.unicode_len() == 0 {
        r.append("default");
    } else {
        r.append(attr_part);
    }
    r
}

} // verus!
