//! `fmt`: the formatter a flake names, and how it is run.
use vstd::prelude::*;
use crate::text::{views, owned, cat, text_eq};
use crate::command::NixCommand;
use crate::nix::{text_option, push_text_option};

verus! {

/// Options of `fmt`.
pub struct FmtArgs {
    /// Installable reference.
    pub installable: String,
    /// Files to format.
    pub args: Vec<String>,
    pub store: Option<String>,
}

/// The arguments of the `nix fmt` a remote flake is handed to.
pub open spec fn remote_fmt_argv(a: FmtArgs, flake_ref: Seq<char>) -> Seq<Seq<char>> {
    seq!["fmt"@] + (if flake_ref.len() > 0 {
        seq![flake_ref]
    } else {
        Seq::empty()
    }) + text_option("--store"@, a.store) + if a.args@.len() > 0 {
        seq!["--"@] + views(a.args@)
    } else {
        Seq::empty()
    }
}

/// The `nix fmt` a remote flake is handed to.
pub fn remote_fmt_command(args: &FmtArgs, flake_ref: &str) -> (r: NixCommand)
    ensures
        r.prog() == "nix"@,
        r.argv() == remote_fmt_argv(*args, flake_ref@),
{
    let mut cmd = NixCommand::new("nix");
    cmd.arg("fmt");
    if flake_ref.unicode_len() > 0 {
        cmd.arg(flake_ref);
    }
    let ghost a1 = cmd.argv();
    push_text_option(&mut cmd, "--store", &args.store);
    let ghost a2 = cmd.argv();
    if args.args.len() > 0 {
        cmd.arg("--");
        cmd.args(&args.args);
    }
    assert(cmd.argv() =~= remote_fmt_argv(*args, flake_ref@));
    cmd
}

/// The attribute of the formatter: `formatter.<system>` for the default
/// attribute (or none), else the attribute given.
pub fn formatter_attr(attr_part: &str, system: &str) -> (r: String)
    ensures
        r@ == if attr_part@ == "default"@ || attr_part@.len() == 0 {
            "formatter."@ + system@
        } else {
            attr_part@
        },
{
    if text_eq(attr_part, "default") || attr_part.unicode_len() == 0 {
        cat("formatter.", system)
    } else {
        owned(attr_part)
    }
}

/// The executable of the formatter package: `<store path>/bin/<main program>`.
pub fn formatter_exe(store_path: &str, main_program: &str) -> (r: String)
    ensures
        r@ == store_path@ + "/bin/"@ + main_program@,
{
    let mut r = owned(store_path);
    r.append("/bin/");
    r.append(main_program);
    r
}

} // verus!
