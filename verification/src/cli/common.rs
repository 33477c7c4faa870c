//! Options shared by the build commands, and what a local build needs.
use vstd::prelude::*;
use crate::text::{views, owned};
use crate::nix::{CommonOptions, ResolvedInstallable, text_pairs, pair_flags, option_tail, text_option};

verus! {

/// The shared build options as given on the command line.
pub struct CommonArgs {
    /// `--arg NAME EXPR` values, in pairs.
    pub extra_args: Vec<String>,
    /// `--argstr NAME VALUE` values, in pairs.
    pub extra_argstrs: Vec<String>,
    pub store: Option<String>,
    pub max_jobs: Option<i32>,
    pub cores: Option<i32>,
    pub keep_going: bool,
    pub keep_failed: bool,
    pub no_build_output: bool,
    pub quiet: bool,
}

/// The whole pairs of `v`, in order; a last single value is left out.
pub open spec fn arg_pairs(v: Seq<Seq<char>>) -> Seq<(Seq<char>, Seq<char>)>
    decreases v.len(),
{
    if v.len() < 2 {
        Seq::empty()
    } else {
        seq![(v[0], v[1])] + arg_pairs(v.skip(2))
    }
}

/// The whole pairs of `args`.
pub fn parse_arg_pairs(args: &Vec<String>) -> (r: Vec<(String, String)>)
    ensures
        text_pairs(r@) == arg_pairs(views(args@)),
{
    let n = args.len();
    let mut r: Vec<(String, String)> = Vec::new();
    let mut i: usize = 0;
    assert(views(args@).skip(0) =~= views(args@));
    while n - i > 1
        invariant
            n == args@.len(),
            i <= n,
            arg_pairs(views(args@)) == text_pairs(r@) + arg_pairs(views(args@).skip(i as int)),
        decreases n - i,
    {
        let ghost rest = views(args@).skip(i as int);
        assert(rest.len() >= 2);
        assert(rest.skip(2) =~= views(args@).skip(i + 2));
        assert(rest[0] == args@[i as int]@ && rest[1] == args@[i + 1]@);
        let ghost before = text_pairs(r@);
        r.push((owned(args[i].as_str()), owned(args[i + 1].as_str())));
        assert(text_pairs(r@) =~= before.push((rest[0], rest[1])));
        assert(before + arg_pairs(rest) =~= text_pairs(r@) + arg_pairs(views(args@).skip(i + 2)));
        i = i + 2;
    }
    assert(views(args@).skip(i as int).len() < 2);
    assert(text_pairs(r@) + arg_pairs(views(args@).skip(i as int)) =~= text_pairs(r@));
    r
}

impl CommonArgs {
    /// The shared build options, with `--arg` and `--argstr` values paired.
    pub fn to_common_options(self) -> (r: CommonOptions)
        ensures
            text_pairs(r.extra_args@) == arg_pairs(views(self.extra_args@)),
            text_pairs(r.extra_argstrs@) == arg_pairs(views(self.extra_argstrs@)),
            r.store == self.store,
            r.max_jobs == self.max_jobs,
            r.cores == self.cores,
            r.keep_going == self.keep_going,
            r.keep_failed == self.keep_failed,
            r.no_build_output == self.no_build_output,
            r.quiet == self.quiet,
            crate::nix::common_argv(r) == common_args_argv(self),
    {
        CommonOptions {
            extra_args: parse_arg_pairs(&self.extra_args),
            extra_argstrs: parse_arg_pairs(&self.extra_argstrs),
            store: self.store,
            max_jobs: self.max_jobs,
            cores: self.cores,
            keep_going: self.keep_going,
            keep_failed: self.keep_failed,
            no_build_output: self.no_build_output,
            quiet: self.quiet,
        }
    }
}

/// Why a local build cannot start.
pub enum CommonError {
    /// The installable has no flake directory.
    NoFlakeDirectory,
}

impl CommonError {
    /// The error's text.
    pub fn message(&self) -> (r: String)
        ensures
            r@ == "No flake directory"@,
    {
        String::from_str("No flake directory")
    }
}

/// The flake directory a local build of `resolved` runs in (whose lock is
/// then ensured before `nix-build` runs); refused without one.
pub fn build_resolved_attribute(resolved: &ResolvedInstallable) -> (r: Result<String, CommonError>)
    ensures
        match resolved.flake_dir {
            Some(d) => r matches Ok(x) && x@ == d@,
            None => r matches Err(CommonError::NoFlakeDirectory),
        },
{
    match &resolved.flake_dir {
        Some(d) => Ok(owned(d.as_str())),
        None => Err(CommonError::NoFlakeDirectory),
    }
}

/// The arguments the shared build options given on the command line become.
pub open spec fn common_args_argv(a: CommonArgs) -> Seq<Seq<char>> {
    pair_flags("--arg"@, arg_pairs(views(a.extra_args@))) + pair_flags(
        "--argstr"@,
        arg_pairs(views(a.extra_argstrs@)),
    ) + text_option("--store"@, a.store) + option_tail(
        a.max_jobs,
        a.cores,
        a.keep_going,
        a.keep_failed,
        a.no_build_output,
        a.quiet,
    )
}

} // verus!
