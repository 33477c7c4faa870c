//! What is handed to the Nix tools: build options and the arguments they
//! become, and the installable a command names.
use vstd::prelude::*;
use crate::text::{views, owned};
use crate::command::NixCommand;

verus! {

/// An installable after resolution: a local flake (with its directory) or a
/// remote flake reference, and the attribute part after `#`.
pub struct ResolvedInstallable {
    pub is_local: bool,
    pub flake_ref: Option<String>,
    pub attr_part: String,
    pub flake_dir: Option<String>,
}

/// Options shared by the build commands.
pub struct CommonOptions {
    /// `--arg NAME EXPR` pairs.
    pub extra_args: Vec<(String, String)>,
    /// `--argstr NAME VALUE` pairs.
    pub extra_argstrs: Vec<(String, String)>,
    pub store: Option<String>,
    pub max_jobs: Option<i32>,
    pub cores: Option<i32>,
    pub keep_going: bool,
    pub keep_failed: bool,
    pub no_build_output: bool,
    pub quiet: bool,
}

/// Options of a local build.
pub struct BuildOptions {
    pub out_link: Option<String>,
    pub common: CommonOptions,
}

/// Options of a development shell.
pub struct ShellOptions {
    pub command: Option<String>,
    pub extra_args: Vec<(String, String)>,
    pub extra_argstrs: Vec<(String, String)>,
    pub store: Option<String>,
    pub bash_prompt: Option<String>,
    pub bash_prompt_prefix: Option<String>,
    pub bash_prompt_suffix: Option<String>,
}

/// A list of text pairs, as texts.
pub open spec fn text_pairs(v: Seq<(String, String)>) -> Seq<(Seq<char>, Seq<char>)> {
    v.map_values(|p: (String, String)| (p.0@, p.1@))
}

/// `flag name value` for each pair.
#[verifier::opaque]
pub open spec fn pair_flags(flag: Seq<char>, ps: Seq<(Seq<char>, Seq<char>)>) -> Seq<Seq<char>>
    decreases ps.len(),
{
    if ps.len() == 0 {
        Seq::empty()
    } else {
        pair_flags(flag, ps.drop_last()) + seq![flag, ps.last().0, ps.last().1]
    }
}

/// An option and its value, when there is a value.
pub open spec fn text_option(flag: Seq<char>, v: Option<String>) -> Seq<Seq<char>> {
    match v {
        Some(x) => seq![flag, x@],
        None => Seq::empty(),
    }
}

/// A numeric option and its value, when there is a value.
pub open spec fn number_option(flag: Seq<char>, v: Option<i32>) -> Seq<Seq<char>> {
    match v {
        Some(n) => seq![flag, crate::numtext::signed_decimal(n as int)],
        None => Seq::empty(),
    }
}

/// A flag, when it is set.
pub open spec fn switch(flag: Seq<char>, on: bool) -> Seq<Seq<char>> {
    if on {
        seq![flag]
    } else {
        Seq::empty()
    }
}

/// The pairs and the store of the shared build options, as arguments.
pub open spec fn common_head(c: CommonOptions) -> Seq<Seq<char>> {
    pair_flags("--arg"@, text_pairs(c.extra_args@)) + pair_flags("--argstr"@, text_pairs(c.extra_argstrs@)) + text_option(
        "--store"@,
        c.store,
    )
}

/// Numeric options and switches of a build, as arguments.
pub open spec fn option_tail(
    max_jobs: Option<i32>,
    cores: Option<i32>,
    keep_going: bool,
    keep_failed: bool,
    no_build_output: bool,
    quiet: bool,
) -> Seq<Seq<char>> {
    number_option("--max-jobs"@, max_jobs) + number_option("--cores"@, cores) + switch(
        "--keep-going"@,
        keep_going,
    ) + switch("--keep-failed"@, keep_failed) + switch("--no-build-output"@, no_build_output)
        + switch("--quiet"@, quiet)
}

/// The numbers and switches of the shared build options, as arguments.
pub open spec fn common_tail(c: CommonOptions) -> Seq<Seq<char>> {
    option_tail(c.max_jobs, c.cores, c.keep_going, c.keep_failed, c.no_build_output, c.quiet)
}

/// The arguments the shared build options become, with the flags the Nix
/// tools document for them.
pub open spec fn common_argv(c: CommonOptions) -> Seq<Seq<char>> {
    common_head(c) + common_tail(c)
}

/// Appends `flag name value` for each pair.
pub fn push_pair_flags(cmd: &mut NixCommand, flag: &str, ps: &Vec<(String, String)>)
    ensures
        final(cmd).prog() == old(cmd).prog(),
        final(cmd).argv() == old(cmd).argv() + pair_flags(flag@, text_pairs(ps@)),
{
    proof { reveal(pair_flags); }
    let n = ps.len();
    for i in 0..n
        invariant
            n == ps@.len(),
            cmd.prog() == old(cmd).prog(),
            cmd.argv() == old(cmd).argv() + pair_flags(flag@, text_pairs(ps@).take(i as int)),
    {
        proof { reveal(pair_flags); }
        let ghost before = cmd.argv();
        cmd.arg(flag);
        cmd.arg(ps[i].0.as_str());
        cmd.arg(ps[i].1.as_str());
        let ghost tp = text_pairs(ps@);
        assert(tp.take(i + 1).drop_last() =~= tp.take(i as int));
        assert(tp.take(i + 1).last() == (ps@[i as int].0@, ps@[i as int].1@));
        assert(cmd.argv() =~= old(cmd).argv() + pair_flags(flag@, tp.take(i + 1)));
    }
    assert(text_pairs(ps@).take(n as int) =~= text_pairs(ps@));
}

/// Appends an option and its value, when there is a value.
pub fn push_text_option(cmd: &mut NixCommand, flag: &str, v: &Option<String>)
    ensures
        final(cmd).prog() == old(cmd).prog(),
        final(cmd).argv() == old(cmd).argv() + text_option(flag@, *v),
{
    match v {
        Some(x) => {
            cmd.arg(flag);
            cmd.arg(x.as_str());
        },
        None => {},
    }
    assert(cmd.argv() =~= old(cmd).argv() + text_option(flag@, *v));
}

/// Appends a numeric option and its value, when there is a value.
fn push_number_option(cmd: &mut NixCommand, flag: &str, v: Option<i32>)
    ensures
        final(cmd).prog() == old(cmd).prog(),
        final(cmd).argv() == old(cmd).argv() + number_option(flag@, v),
{
    match v {
        Some(n) => {
            cmd.arg(flag);
            let t = crate::numtext::i64_text(n as i64);
            cmd.arg(t.as_str());
        },
        None => {},
    }
    assert(cmd.argv() =~= old(cmd).argv() + number_option(flag@, v));
}

/// Appends a flag when it is set.
pub fn push_switch(cmd: &mut NixCommand, flag: &str, on: bool)
    ensures
        final(cmd).prog() == old(cmd).prog(),
        final(cmd).argv() == old(cmd).argv() + switch(flag@, on),
{
    if on {
        cmd.arg(flag);
    }
    assert(cmd.argv() =~= old(cmd).argv() + switch(flag@, on));
}

/// Appends the pairs and the store of the shared build options.
fn apply_common_head(cmd: &mut NixCommand, c: &CommonOptions)
    ensures
        final(cmd).prog() == old(cmd).prog(),
        final(cmd).argv() == old(cmd).argv() + common_head(*c),
{
    push_pair_flags(cmd, "--arg", &c.extra_args);
    push_pair_flags(cmd, "--argstr", &c.extra_argstrs);
    push_text_option(cmd, "--store", &c.store);
    assert(cmd.argv() =~= old(cmd).argv() + common_head(*c));
}

/// Appends the numbers and switches of the shared build options.
fn apply_common_tail(cmd: &mut NixCommand, c: &CommonOptions)
    ensures
        final(cmd).prog() == old(cmd).prog(),
        final(cmd).argv() == old(cmd).argv() + common_tail(*c),
{
    push_number_option(cmd, "--max-jobs", c.max_jobs);
    push_number_option(cmd, "--cores", c.cores);
    push_switch(cmd, "--keep-going", c.keep_going);
    push_switch(cmd, "--keep-failed", c.keep_failed);
    push_switch(cmd, "--no-build-output", c.no_build_output);
    push_switch(cmd, "--quiet", c.quiet);
    assert(cmd.argv() =~= old(cmd).argv() + common_tail(*c));
}

/// Appends the arguments the shared build options become.
pub fn apply_common_args(cmd: &mut NixCommand, c: &CommonOptions)
    ensures
        final(cmd).prog() == old(cmd).prog(),
        final(cmd).argv() == old(cmd).argv() + common_argv(*c),
{
    apply_common_head(cmd, c);
    apply_common_tail(cmd, c);
    assert(cmd.argv() =~= old(cmd).argv() + common_argv(*c));
}

} // verus!
