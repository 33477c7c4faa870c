//! `build`: which way a build goes, and the command lines it runs.
use vstd::prelude::*;
use crate::text::{views, owned, cat, text_eq, starts_with, has_prefix, chars_of, string_of_range};
use crate::command::NixCommand;
use crate::nix::{CommonOptions, ResolvedInstallable, common_argv, apply_common_args};
use crate::cli::common::{CommonArgs, arg_pairs, common_args_argv};

verus! {

/// Options of `build`.
pub struct BuildArgs {
    /// Installable reference.
    pub installable: String,
    /// Name of the result link.
    pub out_link: String,
    /// Make no result link.
    pub no_link: bool,
    /// Build from this Nix file instead of a flake.
    pub nix_file: Option<String>,
    pub common: CommonArgs,
}

/// What `nix-build` builds from.
pub enum BuildSource {
    File(String),
    Expr(String),
}

/// Which way a build goes.
pub enum BuildPlan {
    /// Run `nix-build` (a file, or a remote repository that is no flake).
    Legacy(NixCommand),
    /// Hand a remote flake to `nix build`.
    Passthrough(NixCommand),
    /// Build the local flake, with this result link.
    Local(Option<String>),
}

/// What `{:?}` writes for the text `s`: the text quoted, with escapes.
pub uninterp spec fn debug_quoted_text(s: Seq<char>) -> Seq<char>;

/// Formats `s` with `{:?}` (the `Debug` form of `str`); the contract only
/// names the result.
#[verifier::external_body]
fn debug_quoted(s: &str) -> (r: String)
    ensures
        r@ == debug_quoted_text(s@),
{
    format!("{:?}", s)
}

/// The `-A` argument of a legacy build: none for `.#default`, `.` or an
/// empty attribute; else the attribute without a `.#` in front, unless that
/// is `default`.
pub open spec fn legacy_attr_argv(attr: Seq<char>) -> Seq<Seq<char>> {
    if attr == ".#default"@ || attr == "."@ || attr.len() == 0 {
        Seq::empty()
    } else {
        let a = if has_prefix(attr, ".#"@) {
            attr.skip(2)
        } else {
            attr
        };
        if a == "default"@ {
            Seq::empty()
        } else {
            seq!["-A"@, a]
        }
    }
}

/// The arguments naming what `nix-build` builds from.
pub open spec fn source_argv(source: BuildSource) -> Seq<Seq<char>> {
    match source {
        BuildSource::File(p) => seq![p@],
        BuildSource::Expr(e) => seq!["-E"@, e@],
    }
}

/// The arguments of `nix-build` for a legacy build, given the arguments of
/// the shared options.
pub open spec fn legacy_argv(
    source: Seq<Seq<char>>,
    attr: Seq<char>,
    out_link: Option<Seq<char>>,
    common: Seq<Seq<char>>,
) -> Seq<Seq<char>> {
    source + legacy_attr_argv(attr) + common + match out_link {
        Some(l) => seq!["-o"@, l],
        None => seq!["--no-link"@],
    }
}

/// Appends the `-A` argument of a legacy build.
fn push_legacy_attr(cmd: &mut NixCommand, attr: &str)
    ensures
        final(cmd).prog() == old(cmd).prog(),
        final(cmd).argv() == old(cmd).argv() + legacy_attr_argv(attr@),
{
    if text_eq(attr, ".#default") || text_eq(attr, ".") || attr.unicode_len() == 0 {
        assert(cmd.argv() =~= old(cmd).argv() + legacy_attr_argv(attr@));
        return;
    }
    proof { reveal_strlit(".#"); }
    let a = if starts_with(attr, ".#") {
        let v = chars_of(attr);
        let s = string_of_range(&v, 2, v.len());
        assert(s@ =~= attr@.skip(2));
        s
    } else {
        owned(attr)
    };
    if !text_eq(a.as_str(), "default") {
        cmd.arg("-A");
        cmd.arg(a.as_str());
    }
    assert(cmd.argv() =~= old(cmd).argv() + legacy_attr_argv(attr@));
}

/// The `nix-build` command of a legacy build.
pub fn cmd_build_legacy(source: BuildSource, attr: &str, out_link: Option<&str>, common: &CommonOptions) -> (r: NixCommand)
    ensures
        r.prog() == "nix-build"@,
        r.argv() == legacy_argv(
            source_argv(source),
            attr@,
            match out_link {
                Some(l) => Some(l@),
                None => None,
            },
            common_argv(*common),
        ),
{
    let ghost src = source;
    let mut cmd = NixCommand::new("nix-build");
    match source {
        BuildSource::File(p) => {
            cmd.arg(p.as_str());
        },
        BuildSource::Expr(e) => {
            cmd.arg("-E");
            cmd.arg(e.as_str());
        },
    }
    let ghost a0 = cmd.argv();
    push_legacy_attr(&mut cmd, attr);
    apply_common_args(&mut cmd, common);
    match out_link {
        Some(l) => {
            cmd.arg("-o");
            cmd.arg(l);
        },
        None => {
            cmd.arg("--no-link");
        },
    }
    assert(cmd.argv() =~= legacy_argv(
        source_argv(src),
        attr@,
        match out_link {
            Some(l) => Some(l@),
            None => None,
        },
        common_argv(*common),
    ));
    cmd
}

/// The result link a build asks for.
pub open spec fn out_link_of(a: BuildArgs) -> Option<Seq<char>> {
    if a.no_link {
        None
    } else {
        Some(a.out_link@)
    }
}

/// The flake reference of a remote installable (empty when it has none).
pub open spec fn remote_ref(r: ResolvedInstallable) -> Seq<char> {
    match r.flake_ref {
        Some(f) => f@,
        None => Seq::empty(),
    }
}

/// The expression that builds a remote repository that is no flake.
pub open spec fn fetch_tree_expr(flake_ref: Seq<char>) -> Seq<char> {
    "import (builtins.fetchTree "@ + debug_quoted_text(flake_ref) + ")"@
}

/// Which way a build goes: from the Nix file when one is given; for a
/// remote installable, `nix build` when it is a flake (else `nix-build` of
/// the fetched tree); otherwise a local build.
pub open spec fn build_plan_ok(p: BuildPlan, a: BuildArgs, r: ResolvedInstallable, remote_is_flake: bool) -> bool {
    let common = common_args_argv(a.common);
    match a.nix_file {
        Some(f) => p matches BuildPlan::Legacy(c) && c.prog() == "nix-build"@ && c.argv() == legacy_argv(
            seq![f@],
            a.installable@,
            out_link_of(a),
            common,
        ),
        None => if !r.is_local {
            if remote_is_flake {
                p matches BuildPlan::Passthrough(c) && c.prog() == "nix"@ && c.argv() == seq![
                    "build"@,
                    remote_ref(r) + "#"@ + r.attr_part@,
                ] + (if a.no_link {
                    seq!["--no-link"@]
                } else {
                    seq!["-o"@, a.out_link@]
                }) + common
            } else {
                p matches BuildPlan::Legacy(c) && c.prog() == "nix-build"@ && c.argv() == legacy_argv(
                    seq!["-E"@, fetch_tree_expr(remote_ref(r))],
                    r.attr_part@,
                    out_link_of(a),
                    common,
                )
            }
        } else {
            p matches BuildPlan::Local(o) && match o {
                Some(l) => out_link_of(a) == Some(l@),
                None => out_link_of(a).is_none(),
            }
        },
    }
}

/// Which way a build goes, given the resolved installable and, for a remote
/// one, whether it is a flake.
pub fn cmd_build(args: BuildArgs, resolved: &ResolvedInstallable, remote_is_flake: bool) -> (r: BuildPlan)
    ensures
        build_plan_ok(r, args, *resolved, remote_is_flake),
{
    let ghost a = args;
    let no_link = args.no_link;
    let out_link = args.out_link;
    let installable = args.installable;
    let nix_file = args.nix_file;
    let common = args.common.to_common_options();
    let link: Option<&str> = if no_link {
        None
    } else {
        Some(out_link.as_str())
    };
    match nix_file {
        Some(f) => {
            let src = BuildSource::File(f);
            return BuildPlan::Legacy(cmd_build_legacy(src, installable.as_str(), link, &common));
        },
        None => {},
    }
    if !resolved.is_local {
        let fr: String = match &resolved.flake_ref {
            Some(f) => owned(f.as_str()),
            None => String::new(),
        };
        if remote_is_flake {
            let mut full = owned(fr.as_str());
            full.append("#");
            full.append(resolved.attr_part.as_str());
            let mut cmd = NixCommand::new("nix");
            cmd.arg("build");
            cmd.arg(full.as_str());
            if no_link {
                cmd.arg("--no-link");
            } else {
                cmd.arg("-o");
                cmd.arg(out_link.as_str());
            }
            apply_common_args(&mut cmd, &common);
            assert(cmd.argv() =~= seq!["build"@, remote_ref(*resolved) + "#"@ + resolved.attr_part@]
                + (if a.no_link {
                seq!["--no-link"@]
            } else {
                seq!["-o"@, a.out_link@]
            }) + common_args_argv(a.common));
            return BuildPlan::Passthrough(cmd);
        } else {
            let q = debug_quoted(fr.as_str());
            let mut e = String::from_str("import (builtins.fetchTree ");
            e.append(q.as_str());
            e.append(")");
            let src = BuildSource::Expr(e);
            return BuildPlan::Legacy(cmd_build_legacy(src, resolved.attr_part.as_str(), link, &common));
        }
    }
    let local_link = if no_link {
        None
    } else {
        Some(out_link)
    };
    BuildPlan::Local(local_link)
}

} // verus!
