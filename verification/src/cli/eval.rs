//! `eval`: which attribute paths are tried, and the `nix eval` command that
//! other evaluations are handed to.
use vstd::prelude::*;
use crate::text::{views, owned, cat, text_eq, contains_text};
use crate::command::NixCommand;

verus! {

/// Options of `eval`.
pub struct EvalArgs {
    /// Installable (or, with `--expr` or `--file`, an attribute path).
    pub installable: String,
    pub impure: bool,
    pub expr: Option<String>,
    pub file: Option<String>,
    /// `--arg NAME EXPR` values, in pairs.
    pub arg: Vec<String>,
    /// `--argstr NAME VALUE` values, in pairs.
    pub argstr: Vec<String>,
    /// `--override-input INPUT PATH` values, in pairs.
    pub override_input: Vec<String>,
    pub json: bool,
    pub raw: bool,
    pub apply: Option<String>,
}

/// How `eval` goes about its work.
pub enum EvalMode {
    /// Hand the evaluation to `nix eval`.
    Delegate,
    /// Evaluate the flake reference.
    Flake,
}

/// Why `eval` refuses its options.
pub enum EvalError {
    /// `--arg` or `--argstr` without `--file` or `--expr`.
    ArgsNeedSource,
}

impl EvalError {
    /// The error's text.
    pub fn message(&self) -> (r: String)
        ensures
            r@ == "--arg and --argstr require --file or --expr to be specified"@,
    {
        String::from_str("--arg and --argstr require --file or --expr to be specified")
    }
}

/// How `eval` goes about its work: `--arg` and `--argstr` need `--file` or
/// `--expr`; with either of those, `nix eval` does the work.
pub open spec fn eval_mode_spec(a: EvalArgs) -> Result<EvalMode, EvalError> {
    let has_args = a.arg@.len() > 0 || a.argstr@.len() > 0;
    if has_args && a.file is None && a.expr is None {
        Err(EvalError::ArgsNeedSource)
    } else if a.expr is Some || a.file is Some {
        Ok(EvalMode::Delegate)
    } else {
        Ok(EvalMode::Flake)
    }
}

/// How `eval` goes about its work.
pub fn eval_mode(args: &EvalArgs) -> (r: Result<EvalMode, EvalError>)
    ensures
        r == eval_mode_spec(*args),
{
    let has_args = args.arg.len() > 0 || args.argstr.len() > 0;
    if has_args && args.file.is_none() && args.expr.is_none() {
        Err(EvalError::ArgsNeedSource)
    } else if args.expr.is_some() || args.file.is_some() {
        Ok(EvalMode::Delegate)
    } else {
        Ok(EvalMode::Flake)
    }
}

/// `flag a b` for each whole pair `a b` of `v`; a last single value is left out.
#[verifier::opaque]
pub open spec fn pairs_argv(flag: Seq<char>, v: Seq<Seq<char>>) -> Seq<Seq<char>>
    decreases v.len(),
{
    if v.len() < 2 {
        Seq::empty()
    } else {
        seq![flag, v[0], v[1]] + pairs_argv(flag, v.skip(2))
    }
}

/// Appends `flag a b` for each whole pair of `v`.
fn push_pairs(cmd: &mut NixCommand, flag: &str, v: &Vec<String>)
    ensures
        final(cmd).prog() == old(cmd).prog(),
        final(cmd).argv() == old(cmd).argv() + pairs_argv(flag@, views(v@)),
{
    proof { reveal(pairs_argv); }
    let n = v.len();
    let mut i: usize = 0;
    assert(views(v@).skip(0) =~= views(v@));
    while n - i > 1
        invariant
            n == v@.len(),
            i <= n,
            cmd.prog() == old(cmd).prog(),
            old(cmd).argv() + pairs_argv(flag@, views(v@)) == cmd.argv() + pairs_argv(
                flag@,
                views(v@).skip(i as int),
            ),
        decreases n - i,
    {
        proof { reveal(pairs_argv); }
        let ghost rest = views(v@).skip(i as int);
        assert(rest.len() >= 2);
        assert(rest.skip(2) =~= views(v@).skip(i + 2));
        assert(rest[0] == v@[i as int]@ && rest[1] == v@[i + 1]@);
        let ghost before = cmd.argv();
        cmd.arg(flag);
        cmd.arg(v[i].as_str());
        cmd.arg(v[i + 1].as_str());
        assert(cmd.argv() =~= before + seq![flag@, rest[0], rest[1]]);
        assert(pairs_argv(flag@, rest) == seq![flag@, rest[0], rest[1]] + pairs_argv(flag@, rest.skip(2)));
        assert(before + pairs_argv(flag@, rest) =~= cmd.argv() + pairs_argv(flag@, views(v@).skip(i + 2)));
        i = i + 2;
    }
    assert(views(v@).skip(i as int).len() < 2);
    assert(cmd.argv() =~= cmd.argv() + pairs_argv(flag@, views(v@).skip(i as int)));
}

/// An installable other than `.` or empty names an attribute.
pub open spec fn names_attribute(i: Seq<char>) -> bool {
    i != "."@ && i.len() > 0
}

/// Where the evaluated value comes from: the expression (with the
/// attribute path applied to it), the file (with the attribute path after
/// it), or the installable itself.
pub open spec fn source_argv(a: EvalArgs) -> Seq<Seq<char>> {
    let inst = a.installable@;
    match a.expr {
        Some(e) => seq!["--expr"@, e@] + if names_attribute(inst) {
            seq!["--apply"@, "x: x."@ + inst]
        } else {
            Seq::empty()
        },
        None => match a.file {
            Some(f) => seq!["--file"@, f@] + if names_attribute(inst) {
                seq![inst]
            } else {
                Seq::empty()
            },
            None => seq![inst],
        },
    }
}

/// The output flags and the function to apply.
pub open spec fn output_argv(a: EvalArgs) -> Seq<Seq<char>> {
    (if a.json {
        seq!["--json"@]
    } else {
        Seq::empty()
    }) + (if a.raw {
        seq!["--raw"@]
    } else {
        Seq::empty()
    }) + (match a.apply {
        Some(x) => seq!["--apply"@, x@],
        None => Seq::empty(),
    })
}

/// The arguments of the `nix eval` that an evaluation is handed to.
pub open spec fn delegation_argv(a: EvalArgs) -> Seq<Seq<char>> {
    seq!["--extra-experimental-features"@, "nix-command flakes"@, "eval"@] + source_argv(a)
        + pairs_argv("--arg"@, views(a.arg@)) + pairs_argv("--argstr"@, views(a.argstr@))
        + pairs_argv("--override-input"@, views(a.override_input@)) + output_argv(a) + seq![
        "--impure"@,
    ]
}

/// Whether an installable names an attribute.
fn is_attribute(i: &str) -> (r: bool)
    ensures
        r == names_attribute(i@),
{
    !text_eq(i, ".") && i.unicode_len() > 0
}

/// Appends where the evaluated value comes from.
fn push_source(cmd: &mut NixCommand, args: &EvalArgs)
    ensures
        final(cmd).prog() == old(cmd).prog(),
        final(cmd).argv() == old(cmd).argv() + source_argv(*args),
{
    let inst = args.installable.as_str();
    match &args.expr {
        Some(e) => {
            cmd.arg("--expr");
            cmd.arg(e.as_str());
            if is_attribute(inst) {
                cmd.arg("--apply");
                let a = cat("x: x.", inst);
                cmd.arg(a.as_str());
            }
        },
        None => match &args.file {
            Some(f) => {
                cmd.arg("--file");
                cmd.arg(f.as_str());
                if is_attribute(inst) {
                    cmd.arg(inst);
                }
            },
            None => {
                cmd.arg(inst);
            },
        },
    }
    assert(cmd.argv() =~= old(cmd).argv() + source_argv(*args));
}

/// Appends the output flags and the function to apply.
fn push_output(cmd: &mut NixCommand, args: &EvalArgs)
    ensures
        final(cmd).prog() == old(cmd).prog(),
        final(cmd).argv() == old(cmd).argv() + output_argv(*args),
{
    if args.json {
        cmd.arg("--json");
    }
    if args.raw {
        cmd.arg("--raw");
    }
    match &args.apply {
        Some(x) => {
            cmd.arg("--apply");
            cmd.arg(x.as_str());
        },
        None => {},
    }
    assert(cmd.argv() =~= old(cmd).argv() + output_argv(*args));
}

/// The `nix eval` command that an evaluation is handed to.
pub fn delegation_command(args: &EvalArgs) -> (r: NixCommand)
    ensures
        r.prog() == "nix"@,
        r.argv() == delegation_argv(*args),
{
    let mut cmd = NixCommand::new("nix");
    cmd.arg("--extra-experimental-features");
    cmd.arg("nix-command flakes");
    cmd.arg("eval");
    push_source(&mut cmd, args);
    push_pairs(&mut cmd, "--arg", &args.arg);
    push_pairs(&mut cmd, "--argstr", &args.argstr);
    push_pairs(&mut cmd, "--override-input", &args.override_input);
    push_output(&mut cmd, args);
    cmd.arg("--impure");
    assert(cmd.argv() =~= delegation_argv(*args));
    cmd
}

/// Output kinds that depend on the system.
pub open spec fn per_system_category(c: Seq<char>) -> bool {
    c == "packages"@ || c == "devShells"@ || c == "apps"@ || c == "checks"@ || c == "legacyPackages"@
        || c == "formatter"@
}

/// Output kinds that do not depend on the system. (`lib` is not among them:
/// a path such as `lib.testValue` is tried under `packages.<system>` and
/// `legacyPackages.<system>` before it is tried as it is.)
pub open spec fn top_level_category(c: Seq<char>) -> bool {
    c == "overlays"@ || c == "nixosModules"@ || c == "nixosConfigurations"@ || c == "darwinModules"@
        || c == "darwinConfigurations"@ || c == "homeModules"@ || c == "homeConfigurations"@ || c
        == "templates"@
}

/// The system names recognised in an attribute path.
pub open spec fn known_system(s: Seq<char>) -> bool {
    s == "x86_64-linux"@ || s == "aarch64-linux"@ || s == "x86_64-darwin"@ || s == "aarch64-darwin"@
        || s == "i686-linux"@ || s == "armv7l-linux"@
}

/// The attribute paths `eval` tries for `p`, in order: the path itself for
/// output kinds without a system; the path with the system after the kind
/// for kinds with one (unless it names a system already); else the path
/// under `packages.<system>`, then under `legacyPackages.<system>`, then as
/// it is.
pub open spec fn eval_candidates(p: Seq<Seq<char>>, system: Seq<char>) -> Seq<Seq<Seq<char>>> {
    if p.len() == 0 {
        seq![Seq::empty()]
    } else if top_level_category(p[0]) {
        seq![p]
    } else if per_system_category(p[0]) {
        if p.len() >= 2 && known_system(p[1]) {
            seq![p]
        } else {
            seq![seq![p[0], system] + p.skip(1)]
        }
    } else {
        seq![seq!["packages"@, system] + p, seq!["legacyPackages"@, system] + p, p]
    }
}

/// Whether `c` is an output kind that depends on the system.
fn is_per_system_category(c: &str) -> (r: bool)
    ensures
        r == per_system_category(c@),
{
    text_eq(c, "packages") || text_eq(c, "devShells") || text_eq(c, "apps") || text_eq(c, "checks")
        || text_eq(c, "legacyPackages") || text_eq(c, "formatter")
}

/// Whether `c` is an output kind that does not depend on the system.
fn is_top_level_category(c: &str) -> (r: bool)
    ensures
        r == top_level_category(c@),
{
    text_eq(c, "overlays") || text_eq(c, "nixosModules") || text_eq(c, "nixosConfigurations")
        || text_eq(c, "darwinModules") || text_eq(c, "darwinConfigurations") || text_eq(
        c,
        "homeModules",
    ) || text_eq(c, "homeConfigurations") || text_eq(c, "templates")
}

/// Whether `s` is a recognised system name.
fn is_known_system(s: &str) -> (r: bool)
    ensures
        r == known_system(s@),
{
    text_eq(s, "x86_64-linux") || text_eq(s, "aarch64-linux") || text_eq(s, "x86_64-darwin")
        || text_eq(s, "aarch64-darwin") || text_eq(s, "i686-linux") || text_eq(s, "armv7l-linux")
}

/// A copy of a list of texts.
fn copy_texts(v: &Vec<String>) -> (r: Vec<String>)
    ensures
        views(r@) == views(v@),
{
    let n = v.len();
    let mut r: Vec<String> = Vec::new();
    for i in 0..n
        invariant
            n == v@.len(),
            views(r@) == views(v@).take(i as int),
    {
        let ghost before = views(r@);
        r.push(owned(v[i].as_str()));
        assert(views(r@) =~= before.push(v@[i as int]@));
        assert(views(v@).take(i + 1) =~= views(v@).take(i as int).push(v@[i as int]@));
    }
    assert(views(v@).take(n as int) =~= views(v@));
    r
}

/// `a`, `b`, then the elements of `v` from index `from` on.
fn two_then(a: &str, b: &str, v: &Vec<String>, from: usize) -> (r: Vec<String>)
    requires
        from <= v@.len(),
    ensures
        views(r@) == seq![a@, b@] + views(v@).skip(from as int),
{
    let n = v.len();
    let mut r: Vec<String> = Vec::new();
    r.push(owned(a));
    r.push(owned(b));
    let mut i = from;
    while i < n
        invariant
            n == v@.len(),
            from <= i <= n,
            views(r@) == seq![a@, b@] + views(v@).subrange(from as int, i as int),
        decreases n - i,
    {
        let ghost before = views(r@);
        r.push(owned(v[i].as_str()));
        assert(views(r@) =~= before.push(v@[i as int]@));
        assert(views(v@).subrange(from as int, i + 1) =~= views(v@).subrange(from as int, i as int).push(
            v@[i as int]@,
        ));
        i = i + 1;
    }
    assert(views(v@).subrange(from as int, n as int) =~= views(v@).skip(from as int));
    r
}

/// The views of a list of attribute paths.
pub open spec fn path_views(v: Seq<Vec<String>>) -> Seq<Seq<Seq<char>>> {
    v.map_values(|p: Vec<String>| views(p@))
}

/// The attribute paths `eval` tries for `attr_path` on `system`.
pub fn expand_eval_attr_path(attr_path: &Vec<String>, system: &str) -> (r: Vec<Vec<String>>)
    ensures
        path_views(r@) == eval_candidates(views(attr_path@), system@),
{
    let ghost p = views(attr_path@);
    let mut r: Vec<Vec<String>> = Vec::new();
    if attr_path.len() == 0 {
        let e: Vec<String> = Vec::new();
        r.push(e);
        assert(path_views(r@) =~= seq![Seq::<Seq<char>>::empty()]) by {
            assert(views(r@[0]@) =~= Seq::<Seq<char>>::empty());
        }
        return r;
    }
    let first = attr_path[0].as_str();
    assert(p[0] == first@);
    if is_top_level_category(first) {
        r.push(copy_texts(attr_path));
        assert(path_views(r@) =~= seq![p]);
        return r;
    }
    if is_per_system_category(first) {
        if attr_path.len() >= 2 && is_known_system(attr_path[1].as_str()) {
            assert(p[1] == attr_path@[1]@);
            r.push(copy_texts(attr_path));
            assert(path_views(r@) =~= seq![p]);
            return r;
        }
        r.push(two_then(first, system, attr_path, 1));
        assert(path_views(r@) =~= seq![seq![p[0], system@] + p.skip(1)]);
        return r;
    }
    r.push(two_then("packages", system, attr_path, 0));
    r.push(two_then("legacyPackages", system, attr_path, 0));
    r.push(copy_texts(attr_path));
    assert(p.skip(0) =~= p);
    assert(path_views(r@) =~= seq![
        seq!["packages"@, system@] + p,
        seq!["legacyPackages"@, system@] + p,
        p,
    ]);
    r
}

/// The expression with `--apply` applied: `(apply) (expr)`.
pub fn applied_expr(apply: &Option<String>, expr: String) -> (r: String)
    ensures
        r@ == match apply {
            Some(a) => "("@ + a@ + ") ("@ + expr@ + ")"@,
            None => expr@,
        },
{
    match apply {
        Some(a) => {
            let mut r = String::from_str("(");
            r.append(a.as_str());
            r.append(") (");
            r.append(expr.as_str());
            r.append(")");
            r
        },
        None => expr,
    }
}

/// The `nix eval` command that formats the value of a local evaluation.
pub fn local_eval_command(raw: bool, expr: &str) -> (r: NixCommand)
    ensures
        r.prog() == "nix"@,
        r.argv() == (if raw {
            seq!["eval"@, "--raw"@, "--impure"@, "--expr"@, expr@]
        } else {
            seq!["eval"@, "--impure"@, "--expr"@, expr@]
        }),
{
    let mut cmd = NixCommand::new("nix");
    cmd.arg("eval");
    if raw {
        cmd.arg("--raw");
    }
    cmd.arg("--impure");
    cmd.arg("--expr");
    cmd.arg(expr);
    assert(cmd.argv() =~= (if raw {
        seq!["eval"@, "--raw"@, "--impure"@, "--expr"@, expr@]
    } else {
        seq!["eval"@, "--impure"@, "--expr"@, expr@]
    }));
    cmd
}

/// The arguments of the `nix eval` that a remote installable
/// (`flake_ref#attr_part`) is handed to.
pub open spec fn remote_eval_argv(
    full_ref: Seq<char>,
    json: bool,
    raw: bool,
    apply: Option<String>,
    c: crate::nix::CommonOptions,
) -> Seq<Seq<char>> {
    seq!["eval"@, full_ref] + (if json {
        seq!["--json"@]
    } else {
        Seq::empty()
    }) + (if raw {
        seq!["--raw"@]
    } else {
        Seq::empty()
    }) + crate::nix::text_option("--apply"@, apply) + crate::nix::text_option("--store"@, c.store)
        + crate::nix::pair_flags("--arg"@, crate::nix::text_pairs(c.extra_args@)) + crate::nix::pair_flags(
        "--argstr"@,
        crate::nix::text_pairs(c.extra_argstrs@),
    )
}

/// The `nix eval` that a remote installable is handed to.
pub fn remote_eval_command(
    flake_ref: &str,
    attr_part: &str,
    json: bool,
    raw: bool,
    apply: &Option<String>,
    common: &crate::nix::CommonOptions,
) -> (r: NixCommand)
    ensures
        r.prog() == "nix"@,
        r.argv() == remote_eval_argv(flake_ref@ + "#"@ + attr_part@, json, raw, *apply, *common),
{
    let mut cmd = NixCommand::new("nix");
    cmd.arg("eval");
    let mut full = owned(flake_ref);
    full.append("#");
    full.append(attr_part);
    cmd.arg(full.as_str());
    if json {
        cmd.arg("--json");
    }
    if raw {
        cmd.arg("--raw");
    }
    let ghost a0 = cmd.argv();
    crate::nix::push_text_option(&mut cmd, "--apply", apply);
    crate::nix::push_text_option(&mut cmd, "--store", &common.store);
    crate::nix::push_pair_flags(&mut cmd, "--arg", &common.extra_args);
    crate::nix::push_pair_flags(&mut cmd, "--argstr", &common.extra_argstrs);
    assert(cmd.argv() =~= remote_eval_argv(flake_ref@ + "#"@ + attr_part@, json, raw, *apply, *common));
    cmd
}

/// Whether the inputs of lock node `n` are prefetched when some inputs are
/// overridden: every node but the root and the overridden ones.
pub open spec fn prefetched_node(root: Seq<char>, overridden: Seq<Seq<char>>) -> spec_fn(Seq<char>) -> bool {
    |n: Seq<char>| n != root && !overridden.contains(n)
}

/// The lock nodes whose inputs are prefetched before a local evaluation
/// with overridden inputs, in the order given.
pub fn nodes_to_prefetch(nodes: &Vec<String>, root: &str, overridden: &Vec<String>) -> (r: Vec<String>)
    ensures
        views(r@) == views(nodes@).filter(prefetched_node(root@, views(overridden@))),
{
    let ghost p = prefetched_node(root@, views(overridden@));
    let n = nodes.len();
    let mut r: Vec<String> = Vec::new();
    proof {
        reveal(Seq::filter);
        assert(views(nodes@).take(0) =~= Seq::<Seq<char>>::empty());
        assert(views(r@) =~= views(nodes@).take(0).filter(p));
    }
    for i in 0..n
        invariant
            n == nodes@.len(),
            p == prefetched_node(root@, views(overridden@)),
            views(r@) == views(nodes@).take(i as int).filter(p),
    {
        let ghost t = views(nodes@).take(i + 1);
        proof {
            reveal(Seq::filter);
            assert(t.drop_last() =~= views(nodes@).take(i as int));
            assert(t.last() == nodes@[i as int]@);
        }
        let name = nodes[i].as_str();
        if !text_eq(name, root) && !contains_text(overridden, name) {
            let ghost before = views(r@);
            r.push(owned(name));
            assert(views(r@) =~= before.push(name@));
        }
    }
    assert(views(nodes@).take(n as int) =~= views(nodes@));
    r
}

/// The candidate tried after candidate `i` of `n`: the next one when `i`
/// failed and there is one; else none, and the evaluation ends with the
/// outcome of candidate `i`.
pub fn next_eval_candidate(n: usize, i: usize, failed: bool) -> (r: Option<usize>)
    ensures
        r == (if failed && i + 1 < n { Some((i + 1) as usize) } else { None::<usize> }),
{
    if failed && i < n && i + 1 < n {
        Some(i + 1)
    } else {
        None
    }
}

proof fn lemma_kind_literals()
    ensures
        !top_level_category("packages"@),
        !top_level_category("devShells"@),
        !top_level_category("apps"@),
        !top_level_category("checks"@),
        !top_level_category("legacyPackages"@),
        !top_level_category("formatter"@),
{
    reveal_strlit("packages");
    reveal_strlit("devShells");
    reveal_strlit("apps");
    reveal_strlit("checks");
    reveal_strlit("legacyPackages");
    reveal_strlit("formatter");
    reveal_strlit("overlays");
    reveal_strlit("nixosModules");
    reveal_strlit("nixosConfigurations");
    reveal_strlit("darwinModules");
    reveal_strlit("darwinConfigurations");
    reveal_strlit("homeModules");
    reveal_strlit("homeConfigurations");
    reveal_strlit("templates");
    assert("packages"@[0] != "overlays"@[0]);
    assert("packages"@[0] != "nixosModules"@[0]);
    assert("packages"@[0] != "nixosConfigurations"@[0]);
    assert("packages"@[0] != "darwinModules"@[0]);
    assert("packages"@[0] != "darwinConfigurations"@[0]);
    assert("packages"@[0] != "homeModules"@[0]);
    assert("packages"@[0] != "homeConfigurations"@[0]);
    assert("packages"@[0] != "templates"@[0]);
    assert("devShells"@[1] != "darwinModules"@[1]);
    assert("devShells"@[1] != "darwinConfigurations"@[1]);
    assert("legacyPackages"@[0] != "overlays"@[0]);
    assert("formatter"@[0] != "overlays"@[0]);
    assert("checks"@[0] != "overlays"@[0]);
    assert("apps"@[0] != "overlays"@[0]);
}

/// An attribute path under an output kind that depends on the system
/// (`packages`, `devShells`, `apps`, `checks`, `legacyPackages`,
/// `formatter`), without a system after the kind, is tried only with the
/// system put after the kind: `devShells.default` becomes
/// `devShells.<system>.default`.
pub proof fn per_system_path_gets_the_system(p: Seq<Seq<char>>, system: Seq<char>)
    requires
        p.len() > 0,
        p[0] == "packages"@ || p[0] == "devShells"@ || p[0] == "apps"@ || p[0] == "checks"@
            || p[0] == "legacyPackages"@ || p[0] == "formatter"@,
        !(p.len() >= 2 && (p[1] == "x86_64-linux"@ || p[1] == "aarch64-linux"@ || p[1] == "x86_64-darwin"@
            || p[1] == "aarch64-darwin"@ || p[1] == "i686-linux"@ || p[1] == "armv7l-linux"@)),
    ensures
        eval_candidates(p, system) == seq![seq![p[0], system] + p.skip(1)],
{
    lemma_kind_literals();
}

/// An attribute path under an output kind that depends on the system and
/// already names a system after it is tried as it is.
pub proof fn per_system_path_with_system_is_kept(p: Seq<Seq<char>>, system: Seq<char>)
    requires
        p.len() >= 2,
        p[0] == "packages"@ || p[0] == "devShells"@ || p[0] == "apps"@ || p[0] == "checks"@
            || p[0] == "legacyPackages"@ || p[0] == "formatter"@,
        p[1] == "x86_64-linux"@ || p[1] == "aarch64-linux"@ || p[1] == "x86_64-darwin"@
            || p[1] == "aarch64-darwin"@ || p[1] == "i686-linux"@ || p[1] == "armv7l-linux"@,
    ensures
        eval_candidates(p, system) == seq![p],
{
    lemma_kind_literals();
}

/// An attribute path under an output kind that does not depend on the
/// system is tried as it is.
pub proof fn top_level_path_is_kept(p: Seq<Seq<char>>, system: Seq<char>)
    requires
        p.len() > 0,
        p[0] == "overlays"@ || p[0] == "nixosModules"@ || p[0] == "nixosConfigurations"@
            || p[0] == "darwinModules"@ || p[0] == "darwinConfigurations"@ || p[0] == "homeModules"@
            || p[0] == "homeConfigurations"@ || p[0] == "templates"@,
    ensures
        eval_candidates(p, system) == seq![p],
{
}

/// Any other attribute path (such as `hello` or `lib.testValue`) is tried
/// under `packages.<system>`, then under `legacyPackages.<system>`, then as
/// it is.
pub proof fn other_path_tries_packages_first(p: Seq<Seq<char>>, system: Seq<char>)
    requires
        p.len() > 0,
        !(p[0] == "packages"@ || p[0] == "devShells"@ || p[0] == "apps"@ || p[0] == "checks"@
            || p[0] == "legacyPackages"@ || p[0] == "formatter"@),
        !(p[0] == "overlays"@ || p[0] == "nixosModules"@ || p[0] == "nixosConfigurations"@
            || p[0] == "darwinModules"@ || p[0] == "darwinConfigurations"@ || p[0] == "homeModules"@
            || p[0] == "homeConfigurations"@ || p[0] == "templates"@),
    ensures
        eval_candidates(p, system) == seq![
            seq!["packages"@, system] + p,
            seq!["legacyPackages"@, system] + p,
            p,
        ],
{
}

} // verus!
