//! `develop`: the development shell a command opens.
use vstd::prelude::*;
use crate::text::{views, owned};
use crate::command::NixCommand;
use crate::json::{Json, jget_str};
use crate::nix::{ResolvedInstallable, ShellOptions, text_pairs, pair_flags, push_pair_flags, text_option, push_text_option};
use crate::cli::build::command::remote_ref;
use crate::cli::common::{parse_arg_pairs, arg_pairs};
use crate::cli::shell::interpreter_line;

verus! {

/// Options of `develop`.
pub struct DevelopArgs {
    /// Installable reference.
    pub installable: String,
    pub command: Option<String>,
    pub interpreter: Option<String>,
    pub script: Option<String>,
    pub script_args: Vec<String>,
    /// `--arg NAME EXPR` values, in pairs.
    pub extra_args: Vec<String>,
    /// `--argstr NAME VALUE` values, in pairs.
    pub extra_argstrs: Vec<String>,
    pub store: Option<String>,
}

/// The command the shell runs: the interpreter running the script (or the
/// interpreter alone), else the `--command` given.
pub open spec fn develop_command_spec(a: DevelopArgs) -> Option<Seq<char>> {
    match a.interpreter {
        Some(i) => match a.script {
            Some(s) => Some(interpreter_line(i@, s@, views(a.script_args@))),
            None => Some(i@),
        },
        None => match a.command {
            Some(c) => Some(c@),
            None => None,
        },
    }
}

/// The command the shell runs, if any.
pub fn effective_command(args: &DevelopArgs) -> (r: Option<String>)
    ensures
        match r {
            Some(c) => develop_command_spec(*args) == Some(c@),
            None => develop_command_spec(*args).is_none(),
        },
{
    match &args.interpreter {
        Some(i) => match &args.script {
            Some(s) => Some(crate::cli::shell::build_interpreter_command(i.as_str(), s.as_str(), &args.script_args)),
            None => Some(owned(i.as_str())),
        },
        None => match &args.command {
            Some(c) => Some(owned(c.as_str())),
            None => None,
        },
    }
}

/// The arguments of the `nix develop` a remote installable is handed to.
pub open spec fn develop_argv(a: DevelopArgs, full_ref: Seq<char>) -> Seq<Seq<char>> {
    seq!["develop"@, full_ref] + (match develop_command_spec(a) {
        Some(c) => seq!["--command"@, c],
        None => Seq::empty(),
    }) + text_option("--store"@, a.store) + pair_flags("--arg"@, arg_pairs(views(a.extra_args@)))
        + pair_flags("--argstr"@, arg_pairs(views(a.extra_argstrs@)))
}

/// For a remote installable, the `nix develop` it is handed to; nothing for
/// a local one.
pub fn cmd_develop(args: &DevelopArgs, resolved: &ResolvedInstallable) -> (r: Option<NixCommand>)
    ensures
        resolved.is_local ==> r.is_none(),
        !resolved.is_local ==> (r matches Some(c) && c.prog() == "nix"@ && c.argv() == develop_argv(
            *args,
            remote_ref(*resolved) + "#"@ + resolved.attr_part@,
        )),
{
    if resolved.is_local {
        return None;
    }
    let effective = effective_command(args);
    let mut full = match &resolved.flake_ref {
        Some(f) => owned(f.as_str()),
        None => String::new(),
    };
    full.append("#");
    full.append(resolved.attr_part.as_str());
    let mut cmd = NixCommand::new("nix");
    cmd.arg("develop");
    cmd.arg(full.as_str());
    match &effective {
        Some(c) => {
            cmd.arg("--command");
            cmd.arg(c.as_str());
        },
        None => {},
    }
    let ghost a1 = cmd.argv();
    push_text_option(&mut cmd, "--store", &args.store);
    let pairs = parse_arg_pairs(&args.extra_args);
    push_pair_flags(&mut cmd, "--arg", &pairs);
    let strs = parse_arg_pairs(&args.extra_argstrs);
    push_pair_flags(&mut cmd, "--argstr", &strs);
    assert(cmd.argv() =~= develop_argv(*args, remote_ref(*resolved) + "#"@ + resolved.attr_part@));
    Some(cmd)
}

/// The text of `nix_config[k]`, when it is a string.
fn config_text(nix_config: &Json, k: &str) -> (r: Option<String>)
    ensures
        match r {
            Some(t) => jget_str(nix_config.deep(), k@) == Some(t@),
            None => jget_str(nix_config.deep(), k@).is_none(),
        },
{
    match nix_config.get_str(k) {
        Some(s) => Some(owned(s.as_str())),
        None => None,
    }
}

/// The texts of an optional text.
pub open spec fn opt_view(o: Option<String>) -> Option<Seq<char>> {
    match o {
        Some(s) => Some(s@),
        None => None,
    }
}

/// The options of the local development shell: the command, the paired
/// `--arg` and `--argstr` values, the store, and the bash prompts of the
/// flake's `nixConfig`.
pub fn develop_shell_options(args: &DevelopArgs, nix_config: &Json) -> (r: ShellOptions)
    ensures
        opt_view(r.command) == develop_command_spec(*args),
        text_pairs(r.extra_args@) == arg_pairs(views(args.extra_args@)),
        text_pairs(r.extra_argstrs@) == arg_pairs(views(args.extra_argstrs@)),
        opt_view(r.store) == opt_view(args.store),
        opt_view(r.bash_prompt) == jget_str(nix_config.deep(), "bash-prompt"@),
        opt_view(r.bash_prompt_prefix) == jget_str(nix_config.deep(), "bash-prompt-prefix"@),
        opt_view(r.bash_prompt_suffix) == jget_str(nix_config.deep(), "bash-prompt-suffix"@),
{
    let store = match &args.store {
        Some(s) => Some(owned(s.as_str())),
        None => None,
    };
    ShellOptions {
        command: effective_command(args),
        extra_args: parse_arg_pairs(&args.extra_args),
        extra_argstrs: parse_arg_pairs(&args.extra_argstrs),
        store,
        bash_prompt: config_text(nix_config, "bash-prompt"),
        bash_prompt_prefix: config_text(nix_config, "bash-prompt-prefix"),
        bash_prompt_suffix: config_text(nix_config, "bash-prompt-suffix"),
    }
}

} // verus!
