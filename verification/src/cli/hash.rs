//! `hash`: the `nix hash` command line for each subcommand.
use vstd::prelude::*;
use crate::text::views;
use crate::command::NixCommand;

verus! {

/// Options of `hash file`.
pub struct FileArgs {
    pub paths: Vec<String>,
    pub base16: bool,
    pub base32: bool,
    pub base64: bool,
    pub sri: bool,
    /// Hash algorithm.
    pub type_: Option<String>,
}

/// Options of `hash path`.
pub struct PathArgs {
    pub paths: Vec<String>,
    pub base16: bool,
    pub base32: bool,
    pub base64: bool,
    pub sri: bool,
    /// Hash algorithm.
    pub type_: Option<String>,
}

/// Options of the deprecated `hash to-*` conversions.
pub struct LegacyArgs {
    pub hashes: Vec<String>,
    /// Hash algorithm.
    pub type_: Option<String>,
}

/// Options of `hash convert`.
pub struct ConvertArgs {
    pub hashes: Vec<String>,
    pub from: Option<String>,
    pub to: Option<String>,
    pub hash_algo: Option<String>,
}

/// The subcommands of `hash`.
pub enum HashCommands {
    File(FileArgs),
    Path(PathArgs),
    ToBase16(LegacyArgs),
    ToBase32(LegacyArgs),
    ToBase64(LegacyArgs),
    ToSri(LegacyArgs),
    Convert(ConvertArgs),
}

/// Options of `hash`.
pub struct HashArgs {
    pub command: HashCommands,
}

/// An option and its value, when there is a value.
pub open spec fn opt_pair(flag: Seq<char>, v: Option<String>) -> Seq<Seq<char>> {
    match v {
        Some(x) => seq![flag, x@],
        None => Seq::empty(),
    }
}

/// A flag, when it is set.
pub open spec fn flag_if(flag: Seq<char>, on: bool) -> Seq<Seq<char>> {
    if on {
        seq![flag]
    } else {
        Seq::empty()
    }
}

/// The arguments of a hash of files or paths, after the subcommand word.
pub open spec fn digest_argv(
    base16: bool,
    base32: bool,
    base64: bool,
    sri: bool,
    type_: Option<String>,
    paths: Seq<Seq<char>>,
) -> Seq<Seq<char>> {
    flag_if("--base16"@, base16) + flag_if("--base32"@, base32) + flag_if("--base64"@, base64)
        + flag_if("--sri"@, sri) + opt_pair("--type"@, type_) + paths
}

/// Appends an option and its value, when there is a value.
fn push_opt(cmd: &mut NixCommand, flag: &str, v: &Option<String>)
    ensures
        final(cmd).prog() == old(cmd).prog(),
        final(cmd).argv() == old(cmd).argv() + opt_pair(flag@, *v),
{
    match v {
        Some(x) => {
            cmd.arg(flag);
            cmd.arg(x.as_str());
        },
        None => {},
    }
    assert(cmd.argv() =~= old(cmd).argv() + opt_pair(flag@, *v));
}

/// Appends a flag when it is set.
fn push_flag(cmd: &mut NixCommand, flag: &str, on: bool)
    ensures
        final(cmd).prog() == old(cmd).prog(),
        final(cmd).argv() == old(cmd).argv() + flag_if(flag@, on),
{
    if on {
        cmd.arg(flag);
    }
    assert(cmd.argv() =~= old(cmd).argv() + flag_if(flag@, on));
}

/// Appends the arguments of a hash of files or paths.
fn push_digest(
    cmd: &mut NixCommand,
    base16: bool,
    base32: bool,
    base64: bool,
    sri: bool,
    type_: &Option<String>,
    paths: &Vec<String>,
)
    ensures
        final(cmd).prog() == old(cmd).prog(),
        final(cmd).argv() == old(cmd).argv() + digest_argv(base16, base32, base64, sri, *type_, views(paths@)),
{
    push_flag(cmd, "--base16", base16);
    push_flag(cmd, "--base32", base32);
    push_flag(cmd, "--base64", base64);
    push_flag(cmd, "--sri", sri);
    push_opt(cmd, "--type", type_);
    cmd.args(paths);
    assert(cmd.argv() =~= old(cmd).argv() + digest_argv(base16, base32, base64, sri, *type_, views(paths@)));
}

/// Appends `file` and the arguments of a hash of files.
pub fn handle_file(cmd: &mut NixCommand, args: &FileArgs)
    ensures
        final(cmd).prog() == old(cmd).prog(),
        final(cmd).argv() == old(cmd).argv() + seq!["file"@] + digest_argv(
            args.base16,
            args.base32,
            args.base64,
            args.sri,
            args.type_,
            views(args.paths@),
        ),
{
    cmd.arg("file");
    push_digest(cmd, args.base16, args.base32, args.base64, args.sri, &args.type_, &args.paths);
}

/// Appends `path` and the arguments of a hash of paths.
pub fn handle(cmd: &mut NixCommand, args: &PathArgs)
    ensures
        final(cmd).prog() == old(cmd).prog(),
        final(cmd).argv() == old(cmd).argv() + seq!["path"@] + digest_argv(
            args.base16,
            args.base32,
            args.base64,
            args.sri,
            args.type_,
            views(args.paths@),
        ),
{
    cmd.arg("path");
    push_digest(cmd, args.base16, args.base32, args.base64, args.sri, &args.type_, &args.paths);
}

/// Appends a deprecated conversion: its word, the algorithm, the hashes.
pub fn handle_legacy(cmd: &mut NixCommand, args: &LegacyArgs, subcommand: &str)
    ensures
        final(cmd).prog() == old(cmd).prog(),
        final(cmd).argv() == old(cmd).argv() + seq![subcommand@] + opt_pair("--type"@, args.type_)
            + views(args.hashes@),
{
    cmd.arg(subcommand);
    push_opt(cmd, "--type", &args.type_);
    cmd.args(&args.hashes);
}

/// Appends `convert`, its options, and the hashes.
pub fn handle_convert(cmd: &mut NixCommand, args: &ConvertArgs)
    ensures
        final(cmd).prog() == old(cmd).prog(),
        final(cmd).argv() == old(cmd).argv() + seq!["convert"@] + opt_pair("--from"@, args.from)
            + opt_pair("--to"@, args.to) + opt_pair("--hash-algo"@, args.hash_algo) + views(args.hashes@),
{
    cmd.arg("convert");
    push_opt(cmd, "--from", &args.from);
    push_opt(cmd, "--to", &args.to);
    push_opt(cmd, "--hash-algo", &args.hash_algo);
    cmd.args(&args.hashes);
}

/// The arguments after `hash` for a subcommand.
pub open spec fn hash_argv(c: HashCommands) -> Seq<Seq<char>> {
    match c {
        HashCommands::File(a) => seq!["file"@] + digest_argv(a.base16, a.base32, a.base64, a.sri, a.type_, views(a.paths@)),
        HashCommands::Path(a) => seq!["path"@] + digest_argv(a.base16, a.base32, a.base64, a.sri, a.type_, views(a.paths@)),
        HashCommands::ToBase16(a) => seq!["to-base16"@] + opt_pair("--type"@, a.type_) + views(a.hashes@),
        HashCommands::ToBase32(a) => seq!["to-base32"@] + opt_pair("--type"@, a.type_) + views(a.hashes@),
        HashCommands::ToBase64(a) => seq!["to-base64"@] + opt_pair("--type"@, a.type_) + views(a.hashes@),
        HashCommands::ToSri(a) => seq!["to-sri"@] + opt_pair("--type"@, a.type_) + views(a.hashes@),
        HashCommands::Convert(a) => seq!["convert"@] + opt_pair("--from"@, a.from) + opt_pair("--to"@, a.to)
            + opt_pair("--hash-algo"@, a.hash_algo) + views(a.hashes@),
    }
}

/// The `nix hash` command that a `hash` subcommand runs.
pub fn cmd_hash(cmd: &HashCommands) -> (r: NixCommand)
    ensures
        r.prog() == "nix"@,
        r.argv() == seq!["hash"@] + hash_argv(*cmd),
{
    let mut command = NixCommand::new("nix");
    command.arg("hash");
    let ghost start = command.argv();
    match cmd {
        HashCommands::File(a) => handle_file(&mut command, a),
        HashCommands::Path(a) => handle(&mut command, a),
        HashCommands::ToBase16(a) => handle_legacy(&mut command, a, "to-base16"),
        HashCommands::ToBase32(a) => handle_legacy(&mut command, a, "to-base32"),
        HashCommands::ToBase64(a) => handle_legacy(&mut command, a, "to-base64"),
        HashCommands::ToSri(a) => handle_legacy(&mut command, a, "to-sri"),
        HashCommands::Convert(a) => handle_convert(&mut command, a),
    }
    assert(command.argv() =~= seq!["hash"@] + hash_argv(*cmd));
    command
}

/// The `nix hash` command of `hash`.
pub fn run(args: &HashArgs) -> (r: NixCommand)
    ensures
        r.prog() == "nix"@,
        r.argv() == seq!["hash"@] + hash_argv(args.command),
{
    cmd_hash(&args.command)
}

} // verus!
