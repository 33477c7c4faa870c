//! `search`: the `nix search` it hands the search to.
use vstd::prelude::*;
use crate::text::views;
use crate::command::NixCommand;

verus! {

/// Options of `search`.
pub struct SearchArgs {
    /// Flake to search in.
    pub flake_ref: String,
    /// Patterns to search for.
    pub patterns: Vec<String>,
    pub json: bool,
    pub no_desc: bool,
}

/// The arguments of the `nix search` a search is handed to.
pub open spec fn search_argv(a: SearchArgs) -> Seq<Seq<char>> {
    seq!["--extra-experimental-features"@, "nix-command flakes"@, "search"@, a.flake_ref@] + views(
        a.patterns@,
    ) + (if a.json {
        seq!["--json"@]
    } else {
        Seq::empty()
    }) + if a.no_desc {
        seq!["--no-description"@]
    } else {
        Seq::empty()
    }
}

/// The `nix search` a search is handed to.
pub fn run(args: &SearchArgs) -> (r: NixCommand)
    ensures
        r.prog() == "nix"@,
        r.argv() == search_argv(*args),
{
    let mut cmd = NixCommand::new("nix");
    cmd.arg("--extra-experimental-features");
    cmd.arg("nix-command flakes");
    cmd.arg("search");
    cmd.arg(args.flake_ref.as_str());
    cmd.args(&args.patterns);
    if args.json {
        cmd.arg("--json");
    }
    if args.no_desc {
        cmd.arg("--no-description");
    }
    assert(cmd.argv() =~= search_argv(*args));
    cmd
}

} // verus!
