//! `flake show` over outputs described with markers (`_type`, `_omitted`,
//! `_legacyOmitted`, `_unknown`), and the `nix flake show` a remote flake is
//! handed to.
use vstd::prelude::*;
use crate::json::{Json, JVal, members_deep, lemma_object_deep, key_pos, find_member, jget_str};
use crate::text::{views, owned, cat, text_eq};
use crate::command::NixCommand;
use crate::paint::sgr;

verus! {

/// Options of `flake show`.
pub struct ShowArgs {
    /// Flake reference.
    pub flake_ref: Option<String>,
    /// Show outputs of all systems.
    pub all_systems: bool,
    /// Show `legacyPackages`.
    pub legacy: bool,
}

/// The members hold one of the markers that make an output shown as it is.
pub open spec fn has_marker(ms: Seq<(Seq<char>, JVal)>) -> bool {
    key_pos(ms, "_omitted"@) >= 0 || key_pos(ms, "_legacyOmitted"@) >= 0 || key_pos(ms, "_unknown"@)
        >= 0 || key_pos(ms, "_type"@) >= 0
}

/// Every member is null.
pub open spec fn all_null(ms: Seq<(Seq<char>, JVal)>) -> bool {
    forall|i: int| 0 <= i < ms.len() ==> ms[i].1 is Null
}

/// An output has something to show: anything but an object; an object with
/// a marker, or whose members are all null (and that has members), or with
/// a member that has something to show.
pub open spec fn displayable(v: JVal) -> bool
    decreases v, 0int,
{
    match v {
        JVal::Object(ms) => if has_marker(ms) {
            true
        } else if ms.len() == 0 {
            false
        } else if all_null(ms) {
            true
        } else {
            any_displayable(ms, ms.len() as int)
        },
        _ => true,
    }
}

/// One of the first `n` members has something to show.
pub open spec fn any_displayable(ms: Seq<(Seq<char>, JVal)>, n: int) -> bool
    decreases ms, n,
{
    if n <= 0 || n > ms.len() {
        false
    } else {
        proof {
            assert(decreases_to!(ms => ms[n - 1]));
        }
        displayable(ms[n - 1].1) || any_displayable(ms, n - 1)
    }
}

/// Whether the members `e` hold the key `k`.
pub(crate) fn has_key(e: &Vec<(String, Json)>, k: &str) -> (r: bool)
    ensures
        r == (key_pos(members_deep(e@), k@) >= 0),
{
    find_member(e, k).is_some()
}

/// Whether the members `e` hold one of the markers.
fn has_marker_exec(e: &Vec<(String, Json)>) -> (r: bool)
    ensures
        r == has_marker(members_deep(e@)),
{
    has_key(e, "_omitted") || has_key(e, "_legacyOmitted") || has_key(e, "_unknown") || has_key(e, "_type")
}

/// Whether every member of `e` is null.
fn all_null_exec(e: &Vec<(String, Json)>) -> (r: bool)
    ensures
        r == all_null(members_deep(e@)),
{
    let n = e.len();
    for i in 0..n
        invariant
            n == e@.len(),
            forall|j: int| 0 <= j < i ==> members_deep(e@)[j].1 is Null,
    {
        if !e[i].1.is_null() {
            assert(!(members_deep(e@)[i as int].1 is Null));
            return false;
        }
    }
    true
}

/// Whether an output has something to show.
#[verifier::loop_isolation(false)]
pub fn has_displayable_content(value: &Json) -> (r: bool)
    ensures
        r == displayable(value.deep()),
    decreases value,
{
    match value {
        Json::Object(e) => {
            proof { lemma_object_deep(*e); }
            let ghost ms = members_deep(e@);
            if has_marker_exec(e) {
                return true;
            }
            if e.len() == 0 {
                return false;
            }
            if all_null_exec(e) {
                return true;
            }
            let n = e.len();
            let mut found = false;
            for i in 0..n
                invariant
                    n == e@.len(),
                    ms == members_deep(e@),
                    found == any_displayable(ms, i as int),
            {
                assert(decreases_to!(*value => *e));
                assert(decreases_to!(*e => e@));
                assert(decreases_to!(*value => e@[i as int].1));
                let d = has_displayable_content(&e[i].1);
                assert(ms[i as int].1 == e@[i as int].1.deep());
                found = found || d;
            }
            found
        },
        _ => true,
    }
}

/// `t` in bold magenta, as type labels are shown.
pub open spec fn magenta_bold_text(t: Seq<char>) -> Seq<char> {
    sgr(seq!['3', '5', ';', '1']) + t + sgr(seq!['0'])
}

/// How an output with a `_type` is described: by its type, and for
/// derivations by their category and name.
pub open spec fn output_description(ms: Seq<(Seq<char>, JVal)>) -> Seq<char> {
    let o = JVal::Object(ms);
    let t = match jget_str(o, "_type"@) {
        Some(t) => t,
        None => "unknown"@,
    };
    let name = jget_str(o, "_name"@);
    let category = jget_str(o, "_category"@);
    if t == "derivation"@ {
        match name {
            Some(n) => if category == Some("devShells"@) {
                "development environment '"@ + n + "'"@
            } else if category == Some("packages"@) {
                "package '"@ + n + "'"@
            } else {
                "derivation '"@ + n + "'"@
            },
            None => "derivation"@,
        }
    } else if t == "app"@ {
        "app"@
    } else if t == "formatter"@ {
        match name {
            Some(n) => "package '"@ + n + "'"@,
            None => "package"@,
        }
    } else if t == "overlay"@ {
        magenta_bold_text("Nixpkgs overlay"@)
    } else if t == "module"@ {
        magenta_bold_text("NixOS module"@)
    } else if t == "template"@ {
        "template"@
    } else if t == "configuration"@ {
        "NixOS configuration"@
    } else {
        t
    }
}

/// The text of the member `k` of the members `e`, when it is a string.
pub(crate) fn member_str<'a>(e: &'a Vec<(String, Json)>, k: &str) -> (r: Option<&'a String>)
    ensures
        match r {
            Some(s) => jget_str(JVal::Object(members_deep(e@)), k@) == Some(s@),
            None => jget_str(JVal::Object(members_deep(e@)), k@).is_none(),
        },
{
    match find_member(e, k) {
        Some(i) => {
            assert(members_deep(e@)[i as int].1 == e@[i as int].1.deep());
            e[i].1.as_str()
        },
        None => None,
    }
}

/// `'name'` after `word`.
fn quoted_after(word: &str, name: &String) -> (r: String)
    ensures
        r@ == word@ + name@ + "'"@,
{
    let mut r = owned(word);
    r.append(name.as_str());
    r.append("'");
    r
}

/// Describes an output with a `_type` from its members.
pub fn format_output_description(info: &Vec<(String, Json)>) -> (r: String)
    ensures
        r@ == output_description(members_deep(info@)),
{
    let t: String = match member_str(info, "_type") {
        Some(t) => owned(t.as_str()),
        None => String::from_str("unknown"),
    };
    let name = member_str(info, "_name");
    let category = member_str(info, "_category");
    let ts = t.as_str();
    if text_eq(ts, "derivation") {
        match name {
            Some(n) => {
                let is_dev = match category {
                    Some(c) => text_eq(c.as_str(), "devShells"),
                    None => false,
                };
                let is_pkg = match category {
                    Some(c) => text_eq(c.as_str(), "packages"),
                    None => false,
                };
                if is_dev {
                    quoted_after("development environment '", n)
                } else if is_pkg {
                    quoted_after("package '", n)
                } else {
                    quoted_after("derivation '", n)
                }
            },
            None => String::from_str("derivation"),
        }
    } else if text_eq(ts, "app") {
        String::from_str("app")
    } else if text_eq(ts, "formatter") {
        match name {
            Some(n) => quoted_after("package '", n),
            None => String::from_str("package"),
        }
    } else if text_eq(ts, "overlay") {
        crate::cli::flake::common::magenta_bold("Nixpkgs overlay")
    } else if text_eq(ts, "module") {
        crate::cli::flake::common::magenta_bold("NixOS module")
    } else if text_eq(ts, "template") {
        String::from_str("template")
    } else if text_eq(ts, "configuration") {
        String::from_str("NixOS configuration")
    } else {
        t
    }
}

/// Tree characters in green and bold.
pub open spec fn green_bold(t: Seq<char>) -> Seq<char> {
    sgr(seq!['3', '2', ';', '1']) + t + sgr(seq!['0'])
}

/// `t` in bold.
pub open spec fn bold_text(t: Seq<char>) -> Seq<char> {
    sgr(seq!['1']) + t + sgr(seq!['0'])
}

/// No member after the `i`-th has something to show.
pub open spec fn last_shown(ms: Seq<(Seq<char>, JVal)>, i: int) -> bool {
    forall|j: int| i < j < ms.len() ==> !displayable(#[trigger] ms[j].1)
}

/// The branch before an entry of the tree.
pub open spec fn connector(last: bool) -> Seq<char> {
    if last {
        green_bold(seq!['\u{2514}', '\u{2500}', '\u{2500}', '\u{2500}'])
    } else {
        green_bold(seq!['\u{251c}', '\u{2500}', '\u{2500}', '\u{2500}'])
    }
}

/// The prefix of the lines under an entry.
pub open spec fn child_prefix(prefix: Seq<char>, last: bool) -> Seq<char> {
    if last {
        prefix + "    "@
    } else {
        prefix + green_bold(seq!['\u{2502}']) + "   "@
    }
}

/// The lines of the tree of the outputs `v`, each after `prefix`.
pub open spec fn output_lines(v: JVal, prefix: Seq<char>) -> Seq<Seq<char>>
    decreases v, 0int,
{
    match v {
        JVal::Object(ms) => member_lines(ms, ms.len() as int, prefix),
        _ => Seq::empty(),
    }
}

/// The lines of the tree entries of the first `n` members.
pub open spec fn member_lines(ms: Seq<(Seq<char>, JVal)>, n: int, prefix: Seq<char>) -> Seq<Seq<char>>
    decreases ms, n,
{
    if n <= 0 || n > ms.len() {
        Seq::empty()
    } else {
        member_lines(ms, n - 1, prefix) + entry_lines(ms, n - 1, prefix)
    }
}

/// The first line of the entry of the `i`-th member.
pub open spec fn entry_head(ms: Seq<(Seq<char>, JVal)>, i: int, prefix: Seq<char>) -> Seq<char> {
    prefix + connector(last_shown(ms, i)) + bold_text(ms[i].0)
}

/// The lines of the entry of the `i`-th member: nothing when it has nothing
/// to show; one line for a marked output; else a line and its subtree.
pub open spec fn entry_lines(ms: Seq<(Seq<char>, JVal)>, i: int, prefix: Seq<char>) -> Seq<Seq<char>>
    decreases ms, i,
{
    if i < 0 || i >= ms.len() || !displayable(ms[i].1) {
        Seq::empty()
    } else {
        let head = entry_head(ms, i, prefix);
        proof {
            assert(decreases_to!(ms => ms[i]));
        }
        match ms[i].1 {
            JVal::Object(inner) => if key_pos(inner, "_omitted"@) >= 0 {
                seq![head + " "@ + magenta_bold_text("omitted"@) + " (use '--all-systems' to show)"@]
            } else if key_pos(inner, "_legacyOmitted"@) >= 0 {
                seq![head + " "@ + magenta_bold_text("omitted"@) + " (use '--legacy' to show)"@]
            } else if key_pos(inner, "_unknown"@) >= 0 {
                seq![head + ": unknown"@]
            } else if key_pos(inner, "_type"@) >= 0 {
                seq![head + ": "@ + output_description(inner)]
            } else {
                seq![head] + output_lines(ms[i].1, child_prefix(prefix, last_shown(ms, i)))
            },
            _ => seq![head],
        }
    }
}

/// Appends the lines `v`.
pub(crate) fn push_all(out: &mut Vec<String>, v: Vec<String>)
    ensures
        views(final(out)@) == views(old(out)@) + views(v@),
{
    let n = v.len();
    for i in 0..n
        invariant
            n == v@.len(),
            views(out@) == views(old(out)@) + views(v@).take(i as int),
    {
        let ghost before = views(out@);
        out.push(owned(v[i].as_str()));
        assert(views(out@) =~= before.push(v@[i as int]@));
        assert(views(v@).take(i + 1) =~= views(v@).take(i as int).push(v@[i as int]@));
    }
    assert(views(v@).take(n as int) =~= views(v@));
}

/// The branch before an entry of the tree.
pub(crate) fn connector_text(last: bool) -> (r: &'static str)
    ensures
        r@ == connector(last),
{
    proof {
        reveal_strlit("\x1b[32;1m\u{2514}\u{2500}\u{2500}\u{2500}\x1b[0m");
        reveal_strlit("\x1b[32;1m\u{251c}\u{2500}\u{2500}\u{2500}\x1b[0m");
    }
    if last {
        let r = "\x1b[32;1m\u{2514}\u{2500}\u{2500}\u{2500}\x1b[0m";
        assert(r@ =~= connector(last));
        r
    } else {
        let r = "\x1b[32;1m\u{251c}\u{2500}\u{2500}\u{2500}\x1b[0m";
        assert(r@ =~= connector(last));
        r
    }
}

/// The prefix of the lines under an entry.
pub(crate) fn child_prefix_text(prefix: &str, last: bool) -> (r: String)
    ensures
        r@ == child_prefix(prefix@, last),
{
    proof {
        reveal_strlit("\x1b[32;1m\u{2502}\x1b[0m");
    }
    let mut r = owned(prefix);
    if last {
        r.append("    ");
    } else {
        r.append("\x1b[32;1m\u{2502}\x1b[0m");
        r.append("   ");
    }
    assert(r@ =~= child_prefix(prefix@, last));
    r
}

/// The lines of the tree of the outputs `outputs` (as the evaluator
/// describes them), each after `prefix`.
#[verifier::loop_isolation(false)]
pub fn print_flake_outputs(outputs: &Json, prefix: &str) -> (r: Vec<String>)
    ensures
        views(r@) == output_lines(outputs.deep(), prefix@),
    decreases outputs,
{
    let mut out: Vec<String> = Vec::new();
    match outputs {
        Json::Object(e) => {
            proof { lemma_object_deep(*e); }
            let ghost ms = members_deep(e@);
            let n = e.len();
            let mut shown: Vec<bool> = Vec::new();
            for i in 0..n
                invariant
                    n == e@.len(),
                    shown@.len() == i,
                    forall|j: int| 0 <= j < i ==> shown@[j] == displayable(#[trigger] ms[j].1),
            {
                assert(ms[i as int].1 == e@[i as int].1.deep());
                shown.push(has_displayable_content(&e[i].1));
            }
            let mut last: Option<usize> = None;
            for i in 0..n
                invariant
                    n == e@.len(),
                    shown@.len() == n,
                    match last {
                        Some(l) => l < i && shown@[l as int] && forall|k: int| l < k < i ==> !shown@[k],
                        None => forall|k: int| 0 <= k < i ==> !shown@[k],
                    },
            {
                if shown[i] {
                    last = Some(i);
                }
            }
            assert(member_lines(ms, 0, prefix@) =~= Seq::<Seq<char>>::empty());
            for i in 0..n
                invariant
                    n == e@.len(),
                    ms == members_deep(e@),
                    shown@.len() == n,
                    views(out@) == member_lines(ms, i as int, prefix@),
            {
                assert(ms[i as int] == (e@[i as int].0@, e@[i as int].1.deep()));
                let ghost before = views(out@);
                if shown[i] {
                    let is_last = match last {
                        Some(l) => l == i,
                        None => false,
                    };
                    assert(is_last == last_shown(ms, i as int)) by {
                        if !is_last {
                            match last {
                                Some(l) => {
                                    assert(l > i);
                                    assert(displayable(ms[l as int].1));
                                },
                                None => {},
                            }
                        }
                    }
                    let mut head = owned(prefix);
                    head.append(connector_text(is_last));
                    let b = crate::cli::flake::common::bold(e[i].0.as_str());
                    head.append(b.as_str());
                    assert(head@ =~= entry_head(ms, i as int, prefix@));
                    match &e[i].1 {
                        Json::Object(inner) => {
                            proof { lemma_object_deep(*inner); }
                            if has_key(inner, "_omitted") {
                                let ghost h0 = head@;
                                head.append(" \x1b[35;1momitted\x1b[0m (use '--all-systems' to show)");
                                proof {
                                    reveal_strlit(" \x1b[35;1momitted\x1b[0m (use '--all-systems' to show)");
                                    reveal_strlit(" ");
                                    reveal_strlit("omitted");
                                    reveal_strlit(" (use '--all-systems' to show)");
                                    assert(" \x1b[35;1momitted\x1b[0m (use '--all-systems' to show)"@ =~= " "@ + magenta_bold_text("omitted"@) + " (use '--all-systems' to show)"@);
                                    assert(head@ =~= h0 + " "@ + magenta_bold_text("omitted"@) + " (use '--all-systems' to show)"@);
                                }
                                out.push(head);
                                assert(views(out@) =~= before + entry_lines(ms, i as int, prefix@));
                            } else if has_key(inner, "_legacyOmitted") {
                                let ghost h0 = head@;
                                head.append(" \x1b[35;1momitted\x1b[0m (use '--legacy' to show)");
                                proof {
                                    reveal_strlit(" \x1b[35;1momitted\x1b[0m (use '--legacy' to show)");
                                    reveal_strlit(" ");
                                    reveal_strlit("omitted");
                                    reveal_strlit(" (use '--legacy' to show)");
                                    assert(" \x1b[35;1momitted\x1b[0m (use '--legacy' to show)"@ =~= " "@ + magenta_bold_text("omitted"@) + " (use '--legacy' to show)"@);
                                    assert(head@ =~= h0 + " "@ + magenta_bold_text("omitted"@) + " (use '--legacy' to show)"@);
                                }
                                out.push(head);
                                assert(views(out@) =~= before + entry_lines(ms, i as int, prefix@));
                            } else if has_key(inner, "_unknown") {
                                head.append(": unknown");
                                out.push(head);
                                assert(views(out@) =~= before + entry_lines(ms, i as int, prefix@));
                            } else if has_key(inner, "_type") {
                                head.append(": ");
                                let d = format_output_description(inner);
                                head.append(d.as_str());
                                out.push(head);
                                assert(views(out@) =~= before + entry_lines(ms, i as int, prefix@));
                            } else {
                                out.push(head);
                                let cp = child_prefix_text(prefix, is_last);
                                assert(decreases_to!(*outputs => *e));
                                assert(decreases_to!(*e => e@));
                                assert(decreases_to!(*outputs => e@[i as int].1));
                                let sub = print_flake_outputs(&e[i].1, cp.as_str());
                                push_all(&mut out, sub);
                                assert(views(out@) =~= before + entry_lines(ms, i as int, prefix@));
                            }
                        },
                        _ => {
                            out.push(head);
                            assert(views(out@) =~= before + entry_lines(ms, i as int, prefix@));
                        },
                    }
                }
                assert(views(out@) =~= before + entry_lines(ms, i as int, prefix@));
                assert(member_lines(ms, i + 1, prefix@) == member_lines(ms, i as int, prefix@) + entry_lines(ms, i as int, prefix@));
            }
        },
        _ => {},
    }
    out
}

/// For a remote flake, the `nix flake show` it is handed to (the reference
/// given, `.` by default, when the resolution has none); nothing for a
/// local one.
pub fn cmd_show(flake_ref: Option<&str>, all_systems: bool, legacy: bool, resolved: &crate::nix::ResolvedInstallable) -> (r: Option<NixCommand>)
    ensures
        resolved.is_local ==> r.is_none(),
        !resolved.is_local ==> (r matches Some(c) && c.prog() == "nix"@ && c.argv() == seq![
            "flake"@,
            "show"@,
            match resolved.flake_ref {
                Some(f) => f@,
                None => match flake_ref {
                    Some(x) => x@,
                    None => "."@,
                },
            },
        ] + (if all_systems {
            seq!["--all-systems"@]
        } else {
            Seq::empty()
        }) + (if legacy {
            seq!["--legacy"@]
        } else {
            Seq::empty()
        })),
{
    if resolved.is_local {
        return None;
    }
    let given = match flake_ref {
        Some(x) => x,
        None => ".",
    };
    let full: String = match &resolved.flake_ref {
        Some(f) => owned(f.as_str()),
        None => owned(given),
    };
    let mut cmd = NixCommand::new("nix");
    cmd.arg("flake");
    cmd.arg("show");
    cmd.arg(full.as_str());
    if all_systems {
        cmd.arg("--all-systems");
    }
    if legacy {
        cmd.arg("--legacy");
    }
    Some(cmd)
}

} // verus!
