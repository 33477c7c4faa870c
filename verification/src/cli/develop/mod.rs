//! `develop` on `nix-shell`: a shell entered from a Nix file, or from the
//! derivation of a flake's dev shell; remote flakes are handed to
//! `nix develop`.
pub mod command;

use vstd::prelude::*;
use crate::text::{views, owned, join_strings, join_seq};
use crate::command::NixCommand;
use crate::nix::{pair_flags, push_pair_flags, text_pairs};
use crate::cli::common::{parse_arg_pairs, arg_pairs};

verus! {

/// Options of `develop`.
pub struct DevelopArgs {
    /// Flake reference to develop.
    pub installable: String,
    /// Accepted for compatibility; evaluation is always impure.
    pub impure: bool,
    /// Enter the shell from this Nix file instead of a flake.
    pub file: Option<String>,
    /// Attribute of the file to use.
    pub attr: Option<String>,
    /// `--arg NAME EXPR` values, in pairs.
    pub arg: Vec<String>,
    /// `--argstr NAME VALUE` values, in pairs.
    pub argstr: Vec<String>,
    /// Command and arguments to run instead of an interactive shell.
    pub command: Vec<String>,
    /// Clear the environment but for the kept variables.
    pub ignore_env: bool,
    /// Variables kept with `ignore_env`.
    pub keep_env_var: Vec<String>,
    /// `NAME VALUE` values to set, in pairs.
    pub set_env_var: Vec<String>,
    /// Variables to unset.
    pub unset_env_var: Vec<String>,
}

/// Where `develop` takes its shell from.
pub enum DevelopMode {
    /// A Nix file (`--file`).
    File,
    /// A flake.
    Flake,
}

/// Chooses the mode: a file when `--file` is given, else the flake.
pub fn run(args: &DevelopArgs) -> (r: DevelopMode)
    ensures
        args.file is Some <==> r is File,
{
    match &args.file {
        Some(_) => DevelopMode::File,
        None => DevelopMode::Flake,
    }
}

/// The command the shell runs: the words of `--command` joined with spaces,
/// when there are any.
pub open spec fn effective_command_spec(a: DevelopArgs) -> Option<Seq<char>> {
    if a.command@.len() == 0 {
        None
    } else {
        Some(join_seq(views(a.command@), " "@))
    }
}

/// The command the shell runs, if any.
pub fn get_effective_command(args: &DevelopArgs) -> (r: Option<String>)
    ensures
        match r {
            Some(c) => effective_command_spec(*args) == Some(c@),
            None => effective_command_spec(*args) is None,
        },
{
    if args.command.len() == 0 {
        None
    } else {
        Some(join_strings(&args.command, " "))
    }
}

/// `flag value` for each value, in order.
pub open spec fn repeated_flag(flag: Seq<char>, vs: Seq<Seq<char>>) -> Seq<Seq<char>>
    decreases vs.len(),
{
    if vs.len() == 0 {
        Seq::empty()
    } else {
        repeated_flag(flag, vs.drop_last()) + seq![flag, vs.last()]
    }
}

fn push_repeated_flag(cmd: &mut NixCommand, flag: &str, vs: &Vec<String>)
    ensures
        final(cmd).prog() == old(cmd).prog(),
        final(cmd).argv() == old(cmd).argv() + repeated_flag(flag@, views(vs@)),
{
    let n = vs.len();
    for i in 0..n
        invariant
            n == vs@.len(),
            cmd.prog() == old(cmd).prog(),
            cmd.argv() == old(cmd).argv() + repeated_flag(flag@, views(vs@).take(i as int)),
    {
        cmd.arg(flag);
        cmd.arg(vs[i].as_str());
        let ghost t = views(vs@).take(i + 1);
        assert(t.drop_last() =~= views(vs@).take(i as int));
        assert(t.last() == vs@[i as int]@);
        assert(cmd.argv() =~= old(cmd).argv() + repeated_flag(flag@, t));
    }
    assert(views(vs@).take(n as int) =~= views(vs@));
}

/// The `nix-shell` options for the environment: `--pure` for
/// `--ignore-env`, then `--keep` for each kept variable.
pub open spec fn env_flags(a: DevelopArgs) -> Seq<Seq<char>> {
    (if a.ignore_env {
        seq!["--pure"@]
    } else {
        Seq::empty()
    }) + repeated_flag("--keep"@, views(a.keep_env_var@))
}

/// A change made to the environment the shell starts in.
pub enum EnvChange {
    Assign(String, String),
    Unset(String),
}

/// An environment change, as texts.
pub enum EnvChangeView {
    Assign(Seq<char>, Seq<char>),
    Unset(Seq<char>),
}

impl EnvChange {
    pub open spec fn view(self) -> EnvChangeView {
        match self {
            EnvChange::Assign(k, v) => EnvChangeView::Assign(k@, v@),
            EnvChange::Unset(k) => EnvChangeView::Unset(k@),
        }
    }
}

/// The environment changes, as texts.
pub open spec fn env_views(v: Seq<EnvChange>) -> Seq<EnvChangeView> {
    v.map_values(|c: EnvChange| c.view())
}

/// The variables set, in order.
pub open spec fn set_changes(ps: Seq<(Seq<char>, Seq<char>)>) -> Seq<EnvChangeView> {
    ps.map_values(|p: (Seq<char>, Seq<char>)| EnvChangeView::Assign(p.0, p.1))
}

/// The variables unset, in order.
pub open spec fn unset_changes(vs: Seq<Seq<char>>) -> Seq<EnvChangeView> {
    vs.map_values(|v: Seq<char>| EnvChangeView::Unset(v))
}

/// The environment changes of the shell, in the order they are made:
/// `NIX_BUILD_SHELL=bash` unless the variable is set already
/// (`build_shell_set`), then the `--set-env-var` pairs, then the
/// `--unset-env-var` variables.
pub open spec fn env_changes(a: DevelopArgs, build_shell_set: bool) -> Seq<EnvChangeView> {
    (if build_shell_set {
        Seq::empty()
    } else {
        seq![EnvChangeView::Assign("NIX_BUILD_SHELL"@, "bash"@)]
    }) + set_changes(arg_pairs(views(a.set_env_var@))) + unset_changes(views(a.unset_env_var@))
}

/// The environment changes of the shell (see `env_changes`).
pub fn shell_env(args: &DevelopArgs, build_shell_set: bool) -> (r: Vec<EnvChange>)
    ensures
        env_views(r@) == env_changes(*args, build_shell_set),
{
    let mut r: Vec<EnvChange> = Vec::new();
    if !build_shell_set {
        r.push(EnvChange::Assign(owned("NIX_BUILD_SHELL"), owned("bash")));
    }
    let ghost head = env_views(r@);
    assert(head =~= (if build_shell_set {
        Seq::<EnvChangeView>::empty()
    } else {
        seq![EnvChangeView::Assign("NIX_BUILD_SHELL"@, "bash"@)]
    }));
    let pairs = parse_arg_pairs(&args.set_env_var);
    let n = pairs.len();
    for i in 0..n
        invariant
            n == pairs@.len(),
            text_pairs(pairs@) == arg_pairs(views(args.set_env_var@)),
            env_views(r@) == head + set_changes(text_pairs(pairs@).take(i as int)),
    {
        let ghost before = env_views(r@);
        r.push(EnvChange::Assign(owned(pairs[i].0.as_str()), owned(pairs[i].1.as_str())));
        assert(env_views(r@) =~= before.push(EnvChangeView::Assign(pairs@[i as int].0@, pairs@[i as int].1@)));
        assert(set_changes(text_pairs(pairs@).take(i + 1)) =~= set_changes(text_pairs(pairs@).take(i as int)).push(
            EnvChangeView::Assign(pairs@[i as int].0@, pairs@[i as int].1@),
        ));
    }
    assert(text_pairs(pairs@).take(n as int) =~= text_pairs(pairs@));
    let ghost mid = env_views(r@);
    let m = args.unset_env_var.len();
    for j in 0..m
        invariant
            m == args.unset_env_var@.len(),
            env_views(r@) == mid + unset_changes(views(args.unset_env_var@).take(j as int)),
    {
        let ghost before = env_views(r@);
        r.push(EnvChange::Unset(owned(args.unset_env_var[j].as_str())));
        assert(env_views(r@) =~= before.push(EnvChangeView::Unset(args.unset_env_var@[j as int]@)));
        assert(unset_changes(views(args.unset_env_var@).take(j + 1)) =~= unset_changes(
            views(args.unset_env_var@).take(j as int),
        ).push(EnvChangeView::Unset(args.unset_env_var@[j as int]@)));
    }
    assert(views(args.unset_env_var@).take(m as int) =~= views(args.unset_env_var@));
    assert(env_views(r@) =~= env_changes(*args, build_shell_set));
    r
}

/// `--command c` when the shell runs a command.
pub open spec fn command_flags(a: DevelopArgs) -> Seq<Seq<char>> {
    match effective_command_spec(a) {
        Some(c) => seq!["--command"@, c],
        None => Seq::empty(),
    }
}

fn push_command(cmd: &mut NixCommand, args: &DevelopArgs)
    ensures
        final(cmd).prog() == old(cmd).prog(),
        final(cmd).argv() == old(cmd).argv() + command_flags(*args),
{
    match get_effective_command(args) {
        Some(c) => {
            cmd.arg("--command");
            cmd.arg(c.as_str());
        },
        None => {},
    }
}

fn push_env_flags(cmd: &mut NixCommand, args: &DevelopArgs)
    ensures
        final(cmd).prog() == old(cmd).prog(),
        final(cmd).argv() == old(cmd).argv() + env_flags(*args),
{
    let ghost a0 = cmd.argv();
    if args.ignore_env {
        cmd.arg("--pure");
    }
    let ghost a1 = cmd.argv();
    push_repeated_flag(cmd, "--keep", &args.keep_env_var);
    assert(cmd.argv() =~= a0 + env_flags(*args));
}

/// The arguments of `nix-shell` for the Nix file at `file_path`: the file,
/// `-A` with the attribute, the `--arg` and `--argstr` pairs, the
/// environment options, and the command.
pub open spec fn file_shell_argv(a: DevelopArgs, file_path: Seq<char>) -> Seq<Seq<char>> {
    seq![file_path] + (match a.attr {
        Some(x) => seq!["-A"@, x@],
        None => Seq::empty(),
    }) + pair_flags("--arg"@, arg_pairs(views(a.arg@))) + pair_flags("--argstr"@, arg_pairs(views(a.argstr@)))
        + env_flags(a) + command_flags(a)
}

/// The `nix-shell` that enters the shell of the Nix file at `file_path`
/// (already made absolute).
pub fn file_shell_command(args: &DevelopArgs, file_path: &str) -> (r: NixCommand)
    ensures
        r.prog() == "nix-shell"@,
        r.argv() == file_shell_argv(*args, file_path@),
{
    let mut cmd = NixCommand::new("nix-shell");
    cmd.arg(file_path);
    match &args.attr {
        Some(x) => {
            cmd.arg("-A");
            cmd.arg(x.as_str());
        },
        None => {},
    }
    let pairs = parse_arg_pairs(&args.arg);
    push_pair_flags(&mut cmd, "--arg", &pairs);
    let strs = parse_arg_pairs(&args.argstr);
    push_pair_flags(&mut cmd, "--argstr", &strs);
    push_env_flags(&mut cmd, args);
    push_command(&mut cmd, args);
    assert(cmd.argv() =~= file_shell_argv(*args, file_path@));
    cmd
}

/// The `nix-shell` that enters the dev shell whose derivation is
/// `drv_path`: the derivation, the environment options, and the command.
pub fn flake_shell_command(args: &DevelopArgs, drv_path: &str) -> (r: NixCommand)
    ensures
        r.prog() == "nix-shell"@,
        r.argv() == seq![drv_path@] + env_flags(*args) + command_flags(*args),
{
    let mut cmd = NixCommand::new("nix-shell");
    cmd.arg(drv_path);
    push_env_flags(&mut cmd, args);
    push_command(&mut cmd, args);
    assert(cmd.argv() =~= seq![drv_path@] + env_flags(*args) + command_flags(*args));
    cmd
}

/// The arguments of the `nix develop` a remote flake is handed to: the
/// environment options under their `nix develop` names, and the command run
/// through `sh -c`.
pub open spec fn remote_develop_argv(a: DevelopArgs) -> Seq<Seq<char>> {
    seq!["develop"@, a.installable@] + (if a.ignore_env {
        seq!["--ignore-env"@]
    } else {
        Seq::empty()
    }) + repeated_flag("--keep-env-var"@, views(a.keep_env_var@)) + pair_flags(
        "--set-env-var"@,
        arg_pairs(views(a.set_env_var@)),
    ) + repeated_flag("--unset-env-var"@, views(a.unset_env_var@)) + (match effective_command_spec(a) {
        Some(c) => seq!["--command"@, "sh"@, "-c"@, c],
        None => Seq::empty(),
    })
}

/// The `nix develop` a remote flake is handed to.
pub fn remote_develop_command(args: &DevelopArgs) -> (r: NixCommand)
    ensures
        r.prog() == "nix"@,
        r.argv() == remote_develop_argv(*args),
{
    let mut cmd = NixCommand::new("nix");
    cmd.arg("develop");
    cmd.arg(args.installable.as_str());
    if args.ignore_env {
        cmd.arg("--ignore-env");
    }
    push_repeated_flag(&mut cmd, "--keep-env-var", &args.keep_env_var);
    let sets = parse_arg_pairs(&args.set_env_var);
    push_pair_flags(&mut cmd, "--set-env-var", &sets);
    push_repeated_flag(&mut cmd, "--unset-env-var", &args.unset_env_var);
    match get_effective_command(args) {
        Some(c) => {
            cmd.arg("--command");
            cmd.arg("sh");
            cmd.arg("-c");
            cmd.arg(c.as_str());
        },
        None => {},
    }
    assert(cmd.argv() =~= remote_develop_argv(*args));
    cmd
}

} // verus!
