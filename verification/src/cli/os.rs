//! `os rebuild` and `os repl`: the NixOS commands and expressions they run.
use vstd::prelude::*;
use crate::text::{views, owned, cat, first_occurrence, lemma_first_occurrence, chars_of, find_seq, string_of_range, text_eq};
use crate::command::NixCommand;

verus! {

/// What `os rebuild` asks `nixos-rebuild` to do.
#[derive(Clone, Copy, PartialEq, Eq, Structural)]
pub enum RebuildAction {
    Switch,
    Boot,
    Test,
    Build,
    DryBuild,
    BuildVm,
    BuildVmWithBootloader,
}

impl RebuildAction {
    /// The `nixos-rebuild` word for the action.
    pub open spec fn arg_text(self) -> Seq<char> {
        match self {
            RebuildAction::Switch => "switch"@,
            RebuildAction::Boot => "boot"@,
            RebuildAction::Test => "test"@,
            RebuildAction::Build => "build"@,
            RebuildAction::DryBuild => "dry-build"@,
            RebuildAction::BuildVm => "build-vm"@,
            RebuildAction::BuildVmWithBootloader => "build-vm-with-bootloader"@,
        }
    }

    /// The `nixos-rebuild` word for the action.
    pub fn as_nixos_rebuild_arg(&self) -> (r: &'static str)
        ensures
            r@ == self.arg_text(),
    {
        match self {
            RebuildAction::Switch => "switch",
            RebuildAction::Boot => "boot",
            RebuildAction::Test => "test",
            RebuildAction::Build => "build",
            RebuildAction::DryBuild => "dry-build",
            RebuildAction::BuildVm => "build-vm",
            RebuildAction::BuildVmWithBootloader => "build-vm-with-bootloader",
        }
    }
}

/// Options of `os rebuild`.
pub struct RebuildArgs {
    pub action: RebuildAction,
    /// Flake reference with an optional host name after `#`.
    pub flake_ref: Option<String>,
    pub sudo: bool,
    pub ask_sudo_password: bool,
    pub build_host: Option<String>,
    pub target_host: Option<String>,
    pub profile_name: Option<String>,
    pub show_trace: bool,
    pub print_expr: bool,
    pub nixos_verbose: bool,
    /// Arguments passed on to `nixos-rebuild`.
    pub passthrough: Vec<String>,
}

/// Options of `os repl`.
pub struct ReplArgs {
    pub flake_ref: Option<String>,
    pub file: Option<String>,
    pub attr: Option<String>,
    pub show_trace: bool,
    pub print_expr: bool,
    /// Arguments passed on to `nix repl`.
    pub passthrough: Vec<String>,
}

/// An option and its value, when there is a value.
pub open spec fn opt_arg(flag: Seq<char>, v: Option<String>) -> Seq<Seq<char>> {
    match v {
        Some(x) => seq![flag, x@],
        None => Seq::empty(),
    }
}

/// A flag, when it is set.
pub open spec fn flag_arg(flag: Seq<char>, on: bool) -> Seq<Seq<char>> {
    if on {
        seq![flag]
    } else {
        Seq::empty()
    }
}

/// The arguments of `nixos-rebuild` for a rebuild from the expression file
/// `expr_file`.
pub open spec fn rebuild_argv(a: RebuildArgs, expr_file: Seq<char>) -> Seq<Seq<char>> {
    seq![a.action.arg_text(), "--file"@, expr_file] + flag_arg("--sudo"@, a.sudo || a.ask_sudo_password)
        + flag_arg("--ask-sudo-password"@, a.ask_sudo_password) + opt_arg("--build-host"@, a.build_host)
        + opt_arg("--target-host"@, a.target_host) + opt_arg("--profile-name"@, a.profile_name)
        + flag_arg("--show-trace"@, a.show_trace) + flag_arg("--verbose"@, a.nixos_verbose) + views(
        a.passthrough@,
    )
}

/// Appends an option and its value when there is a value.
fn push_opt(cmd: &mut NixCommand, flag: &str, v: &Option<String>)
    ensures
        final(cmd).prog() == old(cmd).prog(),
        final(cmd).argv() == old(cmd).argv() + opt_arg(flag@, *v),
{
    match v {
        Some(x) => {
            cmd.arg(flag);
            cmd.arg(x.as_str());
            assert(cmd.argv() =~= old(cmd).argv() + opt_arg(flag@, *v));
        },
        None => {
            assert(cmd.argv() =~= old(cmd).argv() + opt_arg(flag@, *v));
        },
    }
}

/// Appends a flag when it is set.
fn push_flag(cmd: &mut NixCommand, flag: &str, on: bool)
    ensures
        final(cmd).prog() == old(cmd).prog(),
        final(cmd).argv() == old(cmd).argv() + flag_arg(flag@, on),
{
    if on {
        cmd.arg(flag);
    }
    assert(cmd.argv() =~= old(cmd).argv() + flag_arg(flag@, on));
}

/// The `nixos-rebuild` command for a rebuild from the expression file
/// `expr_file`.
pub fn rebuild_command(args: &RebuildArgs, expr_file: &str) -> (r: NixCommand)
    ensures
        r.prog() == "nixos-rebuild"@,
        r.argv() == rebuild_argv(*args, expr_file@),
{
    let mut cmd = NixCommand::new("nixos-rebuild");
    cmd.arg(args.action.as_nixos_rebuild_arg());
    cmd.arg("--file");
    cmd.arg(expr_file);
    push_flag(&mut cmd, "--sudo", args.sudo || args.ask_sudo_password);
    push_flag(&mut cmd, "--ask-sudo-password", args.ask_sudo_password);
    push_opt(&mut cmd, "--build-host", &args.build_host);
    push_opt(&mut cmd, "--target-host", &args.target_host);
    push_opt(&mut cmd, "--profile-name", &args.profile_name);
    push_flag(&mut cmd, "--show-trace", args.show_trace);
    push_flag(&mut cmd, "--verbose", args.nixos_verbose);
    cmd.args(&args.passthrough);
    assert(cmd.argv() =~= rebuild_argv(*args, expr_file@));
    cmd
}

/// `os repl` with a file or an attribute hands over to `nixos-rebuild repl`.
pub open spec fn repl_passthrough_argv(a: ReplArgs) -> Seq<Seq<char>> {
    seq!["repl"@] + opt_arg("--file"@, a.file) + opt_arg("--attr"@, a.attr) + flag_arg(
        "--show-trace"@,
        a.show_trace,
    ) + views(a.passthrough@)
}

/// Whether `os repl` hands over to `nixos-rebuild repl`.
pub fn repl_is_passthrough(args: &ReplArgs) -> (r: bool)
    ensures
        r == (args.file is Some || args.attr is Some),
{
    args.file.is_some() || args.attr.is_some()
}

/// The `nixos-rebuild repl` command of `os repl` without a flake.
pub fn repl_passthrough_command(args: &ReplArgs) -> (r: NixCommand)
    ensures
        r.prog() == "nixos-rebuild"@,
        r.argv() == repl_passthrough_argv(*args),
{
    let mut cmd = NixCommand::new("nixos-rebuild");
    cmd.arg("repl");
    push_opt(&mut cmd, "--file", &args.file);
    push_opt(&mut cmd, "--attr", &args.attr);
    push_flag(&mut cmd, "--show-trace", args.show_trace);
    cmd.args(&args.passthrough);
    assert(cmd.argv() =~= repl_passthrough_argv(*args));
    cmd
}

/// The `nix repl` command that opens the expression `expr`.
pub fn repl_command(expr: &str, args: &ReplArgs) -> (r: NixCommand)
    ensures
        r.prog() == "nix"@,
        r.argv() == seq!["repl"@, "--expr"@, expr@] + flag_arg("--show-trace"@, args.show_trace)
            + views(args.passthrough@),
{
    let mut cmd = NixCommand::new("nix");
    cmd.arg("repl");
    cmd.arg("--expr");
    cmd.arg(expr);
    push_flag(&mut cmd, "--show-trace", args.show_trace);
    cmd.args(&args.passthrough);
    assert(cmd.argv() =~= seq!["repl"@, "--expr"@, expr@] + flag_arg("--show-trace"@, args.show_trace)
        + views(args.passthrough@));
    cmd
}

/// The flake part and the host part of a flake reference: split at the
/// first `#`; `.` and no host when there is no reference.
pub open spec fn flake_ref_split(r: Option<Seq<char>>) -> (Seq<char>, Option<Seq<char>>) {
    match r {
        Some(s) => {
            let i = first_occurrence(s, seq!['#']);
            if i >= 0 {
                (s.take(i), Some(s.skip(i + 1)))
            } else {
                (s, None)
            }
        },
        None => ("."@, None),
    }
}

/// The flake part and the host part of a flake reference.
pub fn split_flake_ref(flake_ref: &Option<String>) -> (r: (String, Option<String>))
    ensures
        (r.0@, match r.1 {
            Some(h) => Some(h@),
            None => None,
        }) == flake_ref_split(match flake_ref {
            Some(s) => Some(s@),
            None => None,
        }),
{
    match flake_ref {
        Some(s) => {
            let v = chars_of(s.as_str());
            let mut hash: Vec<char> = Vec::new();
            hash.push('#');
            assert(hash@ =~= seq!['#']);
            proof { lemma_first_occurrence(v@, hash@); }
            let vl = v.len();
            match find_seq(&v, &hash) {
                Some(i) => {
                    assert(i < vl);
                    let p = string_of_range(&v, 0, i);
                    let h = string_of_range(&v, i + 1, vl);
                    assert(p@ =~= s@.take(i as int));
                    assert(h@ =~= s@.skip(i + 1));
                    (p, Some(h))
                },
                None => (owned(s.as_str()), None),
            }
        },
        None => (String::from_str("."), None),
    }
}

/// The flake part names the current directory.
pub fn is_current_dir_ref(ref_part: &str) -> (r: bool)
    ensures
        r == (ref_part@.len() == 0 || ref_part@ == "."@),
{
    ref_part.unicode_len() == 0 || text_eq(ref_part, ".")
}

/// The host named in a flake reference, unless it is empty (then the
/// system's host name is used).
pub fn named_host(host_part: &Option<String>) -> (r: Option<String>)
    ensures
        match host_part {
            Some(h) => if h@.len() > 0 {
                r matches Some(x) && x@ == h@
            } else {
                r.is_none()
            },
            None => r.is_none(),
        },
{
    match host_part {
        Some(h) => if h.as_str().unicode_len() > 0 {
            Some(owned(h.as_str()))
        } else {
            None
        },
        None => None,
    }
}

/// The attribute of the NixOS configuration of `hostname`.
pub fn configuration_attr_path(hostname: &str) -> (r: Vec<String>)
    ensures
        views(r@) == seq!["nixosConfigurations"@, hostname@],
{
    let mut r: Vec<String> = Vec::new();
    r.push(String::from_str("nixosConfigurations"));
    r.push(owned(hostname));
    assert(views(r@) =~= seq!["nixosConfigurations"@, hostname@]);
    r
}

/// The expression file written for `nixos-rebuild`: a header naming the
/// flake, the host and the time, then the expression.
pub open spec fn rebuild_expr_text(flake: Seq<char>, host: Seq<char>, time: Seq<char>, expr: Seq<char>) -> Seq<char> {
    "# Generated by trix for NixOS rebuild\n# Flake: "@ + flake + "\n# Host: "@ + host
        + "\n# Generated: "@ + time + "\n"@ + expr + "\n"@
}

/// The expression file written for `nixos-rebuild`.
pub fn rebuild_expr_with_header(flake: &str, host: &str, time: &str, expr: &str) -> (r: String)
    ensures
        r@ == rebuild_expr_text(flake@, host@, time@, expr@),
{
    let mut r = String::from_str("# Generated by trix for NixOS rebuild\n# Flake: ");
    r.append(flake);
    r.append("\n# Host: ");
    r.append(host);
    r.append("\n# Generated: ");
    r.append(time);
    r.append("\n");
    r.append(expr);
    r.append("\n");
    r
}

/// The expression `os repl` opens: the configuration with its `config`,
/// `options`, `pkgs` and `lib` in scope.
pub open spec fn repl_expr_text(flake: Seq<char>, host: Seq<char>, base: Seq<char>) -> Seq<char> {
    "# NixOS REPL - generated by trix\n# Flake: "@ + flake + "\n# Host: "@ + host
        + "\n#\n# Available variables:\n#   config  - Evaluated NixOS configuration options\n#   options - NixOS option definitions and metadata\n#   pkgs    - Nixpkgs package set\n#   lib     - Nixpkgs library functions\n#\nlet\n  nixosConfig = "@
        + base
        + ";\nin {\n  inherit (nixosConfig) config options;\n  pkgs = nixosConfig.pkgs or nixosConfig._module.args.pkgs;\n  lib = nixosConfig.lib or nixosConfig._module.args.lib or nixosConfig.pkgs.lib;\n}"@
}

/// The expression `os repl` opens.
pub fn repl_expr(flake: &str, host: &str, base: &str) -> (r: String)
    ensures
        r@ == repl_expr_text(flake@, host@, base@),
{
    let mut r = String::from_str("# NixOS REPL - generated by trix\n# Flake: ");
    r.append(flake);
    r.append("\n# Host: ");
    r.append(host);
    r.append("\n#\n# Available variables:\n#   config  - Evaluated NixOS configuration options\n#   options - NixOS option definitions and metadata\n#   pkgs    - Nixpkgs package set\n#   lib     - Nixpkgs library functions\n#\nlet\n  nixosConfig = ");
    r.append(base);
    r.append(";\nin {\n  inherit (nixosConfig) config options;\n  pkgs = nixosConfig.pkgs or nixosConfig._module.args.pkgs;\n  lib = nixosConfig.lib or nixosConfig._module.args.lib or nixosConfig.pkgs.lib;\n}");
    r
}

/// The error of a `nixos-rebuild` that failed: its exit code, or a signal.
pub fn rebuild_failure_message(code: Option<i32>) -> (r: String)
    ensures
        r@ == match code {
            Some(c) => "nixos-rebuild exited with code "@ + crate::numtext::signed_decimal(c as int),
            None => "nixos-rebuild was terminated by signal"@,
        },
{
    match code {
        Some(c) => {
            let t = crate::numtext::i64_text(c as i64);
            cat("nixos-rebuild exited with code ", t.as_str())
        },
        None => String::from_str("nixos-rebuild was terminated by signal"),
    }
}

/// The error of a flake without `flake.lock`.
pub fn missing_lock_message(lock_path: &str) -> (r: String)
    ensures
        r@ == "flake.lock not found at "@ + lock_path@ + ". Run 'trix flake lock' first."@,
{
    let mut r = String::from_str("flake.lock not found at ");
    r.append(lock_path);
    r.append(". Run 'trix flake lock' first.");
    r
}

} // verus!
