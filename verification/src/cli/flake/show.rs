//! `flake show`: the tree of a flake's outputs (as the evaluator describes
//! them in JSON, leaves marked with a `type`), and the `nix flake show` a
//! remote flake is handed to.
pub mod command;

use vstd::prelude::*;
use crate::json::{Json, JVal, members_deep, lemma_object_deep, key_pos, jget, jget_str};
use crate::text::{views, owned, cat, text_eq};
use crate::command::NixCommand;
use crate::cli::flake::show::command::{
    bold_text, connector, child_prefix, magenta_bold_text, has_key, push_all, connector_text,
    child_prefix_text, member_str,
};

verus! {

/// Options of `flake show`.
pub struct ShowArgs {
    /// Flake reference.
    pub flake_ref: String,
    /// Print the outputs as JSON.
    pub json: bool,
    /// Show outputs of all systems.
    pub all_systems: bool,
    /// Show `legacyPackages`.
    pub legacy: bool,
}

/// The arguments of the `nix flake show` a remote flake is handed to.
pub open spec fn remote_show_argv(a: ShowArgs, installable: Seq<char>) -> Seq<Seq<char>> {
    seq!["--extra-experimental-features"@, "nix-command flakes"@, "flake"@, "show"@, installable] + (if a.json {
        seq!["--json"@]
    } else {
        Seq::empty()
    }) + (if a.all_systems {
        seq!["--all-systems"@]
    } else {
        Seq::empty()
    }) + (if a.legacy {
        seq!["--legacy"@]
    } else {
        Seq::empty()
    })
}

/// The `nix flake show` a remote flake (`installable`) is handed to.
pub fn remote_show_command(args: &ShowArgs, installable: &str) -> (r: NixCommand)
    ensures
        r.prog() == "nix"@,
        r.argv() == remote_show_argv(*args, installable@),
{
    let mut cmd = NixCommand::new("nix");
    cmd.arg("--extra-experimental-features");
    cmd.arg("nix-command flakes");
    cmd.arg("flake");
    cmd.arg("show");
    cmd.arg(installable);
    if args.json {
        cmd.arg("--json");
    }
    if args.all_systems {
        cmd.arg("--all-systems");
    }
    if args.legacy {
        cmd.arg("--legacy");
    }
    assert(cmd.argv() =~= remote_show_argv(*args, installable@));
    cmd
}

/// An output has something to show: anything but an object; an object with
/// a `type`, or with a member that has something to show.
pub open spec fn shows(v: JVal) -> bool
    decreases v, 0int,
{
    match v {
        JVal::Object(ms) => if ms.len() == 0 {
            false
        } else if key_pos(ms, "type"@) >= 0 {
            true
        } else {
            any_shows(ms, ms.len() as int)
        },
        _ => true,
    }
}

/// One of the first `n` members has something to show.
pub open spec fn any_shows(ms: Seq<(Seq<char>, JVal)>, n: int) -> bool
    decreases ms, n,
{
    if n <= 0 || n > ms.len() {
        false
    } else {
        proof {
            assert(decreases_to!(ms => ms[n - 1]));
        }
        shows(ms[n - 1].1) || any_shows(ms, n - 1)
    }
}

/// Whether an output has something to show.
#[verifier::loop_isolation(false)]
pub fn has_displayable_content(value: &Json) -> (r: bool)
    ensures
        r == shows(value.deep()),
    decreases value,
{
    match value {
        Json::Object(e) => {
            proof { lemma_object_deep(*e); }
            let ghost ms = members_deep(e@);
            if e.len() == 0 {
                return false;
            }
            if has_key(e, "type") {
                return true;
            }
            let n = e.len();
            let mut found = false;
            for i in 0..n
                invariant
                    n == e@.len(),
                    ms == members_deep(e@),
                    found == any_shows(ms, i as int),
            {
                assert(decreases_to!(*value => *e));
                assert(decreases_to!(*e => e@));
                assert(decreases_to!(*value => e@[i as int].1));
                let d = has_displayable_content(&e[i].1);
                assert(ms[i as int].1 == e@[i as int].1.deep());
                found = found || d;
            }
            found
        },
        _ => true,
    }
}

/// How an output of type `t` is described, given its other members.
pub open spec fn output_type_text(t: Seq<char>, ms: Seq<(Seq<char>, JVal)>) -> Seq<char> {
    let o = JVal::Object(ms);
    if t == "derivation"@ {
        "package '"@ + match jget_str(o, "name"@) {
            Some(n) => n,
            None => "unknown"@,
        } + "'"@
    } else if t == "app"@ {
        "app"@
    } else if t == "nixpkgs-overlay"@ {
        magenta_bold_text("Nixpkgs overlay"@)
    } else if t == "nixos-module"@ {
        magenta_bold_text("NixOS module"@)
    } else if t == "nixos-configuration"@ {
        "NixOS configuration"@
    } else if t == "template"@ {
        match jget_str(o, "description"@) {
            Some(d) => if d.len() == 0 {
                "template"@
            } else {
                "template: "@ + d
            },
            None => "template"@,
        }
    } else {
        t
    }
}

/// How an output of type `type_val` is described.
pub fn format_output_type(type_val: &str, info: &Vec<(String, Json)>) -> (r: String)
    ensures
        r@ == output_type_text(type_val@, members_deep(info@)),
{
    proof {
        reveal_strlit("\x1b[35;1mNixpkgs overlay\x1b[0m");
        reveal_strlit("\x1b[35;1mNixOS module\x1b[0m");
        reveal_strlit("Nixpkgs overlay");
        reveal_strlit("NixOS module");
        reveal_strlit("\x1b[35;1m");
        reveal_strlit("\x1b[0m");
    }
    if text_eq(type_val, "derivation") {
        let mut r = String::from_str("package '");
        match member_str(info, "name") {
            Some(n) => r.append(n.as_str()),
            None => r.append("unknown"),
        }
        r.append("'");
        r
    } else if text_eq(type_val, "app") {
        String::from_str("app")
    } else if text_eq(type_val, "nixpkgs-overlay") {
        let r = String::from_str("\x1b[35;1mNixpkgs overlay\x1b[0m");
        assert(r@ =~= magenta_bold_text("Nixpkgs overlay"@));
        r
    } else if text_eq(type_val, "nixos-module") {
        let r = String::from_str("\x1b[35;1mNixOS module\x1b[0m");
        assert(r@ =~= magenta_bold_text("NixOS module"@));
        r
    } else if text_eq(type_val, "nixos-configuration") {
        String::from_str("NixOS configuration")
    } else if text_eq(type_val, "template") {
        match member_str(info, "description") {
            Some(d) => if d.as_str().unicode_len() == 0 {
                String::from_str("template")
            } else {
                cat("template: ", d.as_str())
            },
            None => String::from_str("template"),
        }
    } else {
        owned(type_val)
    }
}

/// No member after the `i`-th has something to show.
pub open spec fn last_showing(ms: Seq<(Seq<char>, JVal)>, i: int) -> bool {
    forall|j: int| i < j < ms.len() ==> !shows(#[trigger] ms[j].1)
}

/// The lines of the tree of the outputs `v`, each after `prefix`.
pub open spec fn tree_lines(v: JVal, prefix: Seq<char>) -> Seq<Seq<char>>
    decreases v, 0int,
{
    match v {
        JVal::Object(ms) => tree_member_lines(ms, ms.len() as int, prefix),
        _ => Seq::empty(),
    }
}

/// The lines of the tree entries of the first `n` members.
pub open spec fn tree_member_lines(ms: Seq<(Seq<char>, JVal)>, n: int, prefix: Seq<char>) -> Seq<Seq<char>>
    decreases ms, n,
{
    if n <= 0 || n > ms.len() {
        Seq::empty()
    } else {
        tree_member_lines(ms, n - 1, prefix) + tree_entry_lines(ms, n - 1, prefix)
    }
}

/// The first line of the entry of the `i`-th member.
pub open spec fn tree_head(ms: Seq<(Seq<char>, JVal)>, i: int, prefix: Seq<char>) -> Seq<char> {
    prefix + connector(last_showing(ms, i)) + bold_text(ms[i].0)
}

/// The lines of the entry of the `i`-th member: nothing when it has nothing
/// to show; one line for an output with a textual `type`; else a line and
/// the subtree.
pub open spec fn tree_entry_lines(ms: Seq<(Seq<char>, JVal)>, i: int, prefix: Seq<char>) -> Seq<Seq<char>>
    decreases ms, i,
{
    if i < 0 || i >= ms.len() || !shows(ms[i].1) {
        Seq::empty()
    } else {
        let head = tree_head(ms, i, prefix);
        proof {
            assert(decreases_to!(ms => ms[i]));
        }
        match ms[i].1 {
            JVal::Object(inner) => match jget_str(JVal::Object(inner), "type"@) {
                Some(t) => seq![head + ": "@ + output_type_text(t, inner)],
                None => if inner.len() == 0 {
                    Seq::empty()
                } else {
                    seq![head] + tree_lines(ms[i].1, child_prefix(prefix, last_showing(ms, i)))
                },
            },
            _ => seq![head],
        }
    }
}

/// The lines of the tree of the outputs `outputs`, each after `prefix`.
#[verifier::loop_isolation(false)]
pub fn print_flake_outputs(outputs: &Json, prefix: &str) -> (r: Vec<String>)
    ensures
        views(r@) == tree_lines(outputs.deep(), prefix@),
    decreases outputs,
{
    let mut out: Vec<String> = Vec::new();
    match outputs {
        Json::Object(e) => {
            proof { lemma_object_deep(*e); }
            let ghost ms = members_deep(e@);
            let n = e.len();
            let mut shown: Vec<bool> = Vec::new();
            for i in 0..n
                invariant
                    n == e@.len(),
                    shown@.len() == i,
                    forall|j: int| 0 <= j < i ==> shown@[j] == shows(#[trigger] ms[j].1),
            {
                assert(ms[i as int].1 == e@[i as int].1.deep());
                shown.push(has_displayable_content(&e[i].1));
            }
            let mut last: Option<usize> = None;
            for i in 0..n
                invariant
                    n == e@.len(),
                    shown@.len() == n,
                    match last {
                        Some(l) => l < i && shown@[l as int] && forall|k: int| l < k < i ==> !shown@[k],
                        None => forall|k: int| 0 <= k < i ==> !shown@[k],
                    },
            {
                if shown[i] {
                    last = Some(i);
                }
            }
            assert(tree_member_lines(ms, 0, prefix@) =~= Seq::<Seq<char>>::empty());
            for i in 0..n
                invariant
                    n == e@.len(),
                    ms == members_deep(e@),
                    shown@.len() == n,
                    views(out@) == tree_member_lines(ms, i as int, prefix@),
            {
                assert(ms[i as int] == (e@[i as int].0@, e@[i as int].1.deep()));
                let ghost before = views(out@);
                if shown[i] {
                    let is_last = match last {
                        Some(l) => l == i,
                        None => false,
                    };
                    assert(is_last == last_showing(ms, i as int)) by {
                        if !is_last {
                            match last {
                                Some(l) => {
                                    assert(l > i);
                                    assert(shows(ms[l as int].1));
                                },
                                None => {},
                            }
                        }
                    }
                    let mut head = owned(prefix);
                    head.append(connector_text(is_last));
                    let b = crate::cli::flake::common::bold(e[i].0.as_str());
                    head.append(b.as_str());
                    assert(head@ =~= tree_head(ms, i as int, prefix@));
                    match &e[i].1 {
                        Json::Object(inner) => {
                            proof { lemma_object_deep(*inner); }
                            match member_str(inner, "type") {
                                Some(t) => {
                                    head.append(": ");
                                    let d = format_output_type(t.as_str(), inner);
                                    head.append(d.as_str());
                                    out.push(head);
                                    assert(views(out@) =~= before + tree_entry_lines(ms, i as int, prefix@));
                                },
                                None => {
                                    if inner.len() > 0 {
                                        out.push(head);
                                        let cp = child_prefix_text(prefix, is_last);
                                        assert(decreases_to!(*outputs => *e));
                                        assert(decreases_to!(*e => e@));
                                        assert(decreases_to!(*outputs => e@[i as int].1));
                                        let sub = print_flake_outputs(&e[i].1, cp.as_str());
                                        push_all(&mut out, sub);
                                    }
                                    assert(views(out@) =~= before + tree_entry_lines(ms, i as int, prefix@));
                                },
                            }
                        },
                        _ => {
                            out.push(head);
                            assert(views(out@) =~= before + tree_entry_lines(ms, i as int, prefix@));
                        },
                    }
                }
                assert(views(out@) =~= before + tree_entry_lines(ms, i as int, prefix@));
                assert(tree_member_lines(ms, i + 1, prefix@) == tree_member_lines(ms, i as int, prefix@)
                    + tree_entry_lines(ms, i as int, prefix@));
            }
        },
        _ => {},
    }
    out
}

/// The heading of the tree: the flake's URL in bold.
pub fn show_header(is_git: bool, path: &str) -> (r: String)
    ensures
        r@ == bold_text((if is_git {
            "git+file://"@
        } else {
            "path:"@
        }) + path@),
{
    proof {
        reveal_strlit("\x1b[1m");
        reveal_strlit("\x1b[0m");
    }
    let mut r = String::from_str("\x1b[1m");
    if is_git {
        r.append("git+file://");
    } else {
        r.append("path:");
    }
    r.append(path);
    r.append("\x1b[0m");
    assert(r@ =~= bold_text((if is_git {
        "git+file://"@
    } else {
        "path:"@
    }) + path@));
    r
}


} // verus!
