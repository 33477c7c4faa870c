//! `profile history`: the generations of a profile and the package versions
//! that changed from one to the next.
use vstd::prelude::*;
use crate::text::{views, owned, cat, has_prefix, has_suffix, starts_with, ends_with, chars_of, string_of_range};
use crate::numtext::decimal;
use crate::order::{sorted_listing, sorted_set_of, lemma_sorted_listing_is, lists_sorted};
use crate::assoc::{tkeys, tget, tmap, get_text};
use crate::paint::sgr;
use crate::cli::diff::{parse_u32_text, parse_u32};

verus! {

/// The number of a generation link `profile-<n>-link`.
pub open spec fn generation_number(name: Seq<char>) -> Option<u32> {
    if name.len() >= 13 && has_prefix(name, "profile-"@) && has_suffix(name, "-link"@) {
        parse_u32_text(name.subrange(8, name.len() - 5))
    } else {
        None
    }
}

/// The number of a generation link `profile-<n>-link`, if `name` is one.
pub fn parse_generation_number(name: &str) -> (r: Option<u32>)
    ensures
        r == generation_number(name@),
{
    proof {
        reveal_strlit("profile-");
        reveal_strlit("-link");
    }
    let v = chars_of(name);
    let n = v.len();
    if n >= 13 && starts_with(name, "profile-") && ends_with(name, "-link") {
        let mid = string_of_range(&v, 8, n - 5);
        assert(mid@ =~= name@.subrange(8, name@.len() - 5));
        parse_u32(mid.as_str())
    } else {
        None
    }
}

/// The number of a generation in the history: green and bold for the
/// current one, bold for the others.
pub open spec fn generation_label(num: u32, is_current: bool) -> Seq<char> {
    if is_current {
        sgr(seq!['3', '2', ';', '1']) + decimal(num as nat) + sgr(seq!['0'])
    } else {
        sgr(seq!['1']) + decimal(num as nat) + sgr(seq!['0'])
    }
}

/// The heading of a generation in the history, with the number of the one
/// before it when there is one.
pub open spec fn history_header_text(num: u32, is_current: bool, date: Seq<char>, prev: Option<u32>) -> Seq<char> {
    "Version "@ + generation_label(num, is_current) + " ("@ + date + ")"@ + match prev {
        Some(p) => " <- "@ + decimal(p as nat),
        None => Seq::empty(),
    } + ":"@
}

/// The heading of a generation in the history.
pub fn history_header(num: u32, is_current: bool, date: &str, prev: Option<u32>) -> (r: String)
    ensures
        r@ == history_header_text(num, is_current, date@, prev),
{
    let mut r = String::from_str("Version ");
    if is_current {
        r.append("\x1b[32;1m");
    } else {
        r.append("\x1b[1m");
    }
    let t = crate::numtext::u64_text(num as u64);
    r.append(t.as_str());
    r.append("\x1b[0m");
    r.append(" (");
    r.append(date);
    r.append(")");
    match prev {
        Some(p) => {
            r.append(" <- ");
            let pt = crate::numtext::u64_text(p as u64);
            r.append(pt.as_str());
        },
        None => {},
    }
    r.append(":");
    proof {
        reveal_strlit("\x1b[32;1m");
        reveal_strlit("\x1b[1m");
        reveal_strlit("\x1b[0m");
    }
    assert(r@ =~= history_header_text(num, is_current, date@, prev));
    r
}

/// The empty-set sign, for a version that is not there.
pub open spec fn none_sign() -> Seq<char> {
    seq!['\u{2205}']
}

/// The line of a package whose version changed, if it changed.
pub open spec fn version_change(pkg: Seq<char>, old: Option<Seq<char>>, new: Option<Seq<char>>) -> Seq<Seq<char>> {
    match (old, new) {
        (None, Some(n)) => seq!["  "@ + pkg + ": "@ + none_sign() + " -> "@ + n],
        (Some(o), None) => seq!["  "@ + pkg + ": "@ + o + " -> "@ + none_sign()],
        (Some(o), Some(n)) => if o != n {
            seq!["  "@ + pkg + ": "@ + o + " -> "@ + n]
        } else {
            Seq::empty()
        },
        (None, None) => Seq::empty(),
    }
}

/// The lines of the packages `keys` whose versions changed.
pub open spec fn change_lines(
    keys: Seq<Seq<char>>,
    prev: Seq<(Seq<char>, Seq<char>)>,
    curr: Seq<(Seq<char>, Seq<char>)>,
) -> Seq<Seq<char>>
    decreases keys.len(),
{
    if keys.len() == 0 {
        Seq::empty()
    } else {
        change_lines(keys.drop_last(), prev, curr) + version_change(
            keys.last(),
            tget(prev, keys.last()),
            tget(curr, keys.last()),
        )
    }
}

/// The version changes from `prev` to `curr`, by package name in order.
pub open spec fn history_changes(prev: Seq<(Seq<char>, Seq<char>)>, curr: Seq<(Seq<char>, Seq<char>)>) -> Seq<Seq<char>> {
    change_lines(sorted_listing(tkeys(prev).to_set() + tkeys(curr).to_set()), prev, curr)
}

proof fn lemma_same_versions_no_lines(keys: Seq<Seq<char>>, m: Seq<(Seq<char>, Seq<char>)>)
    ensures
        change_lines(keys, m, m).len() == 0,
    decreases keys.len(),
{
    if keys.len() > 0 {
        lemma_same_versions_no_lines(keys.drop_last(), m);
    }
}

/// A generation whose package versions are those of the one before it
/// lists no version change.
pub proof fn history_with_same_versions_is_empty(m: Seq<(Seq<char>, Seq<char>)>)
    ensures
        history_changes(m, m).len() == 0,
{
    lemma_same_versions_no_lines(sorted_listing(tkeys(m).to_set() + tkeys(m).to_set()), m);
}

/// The lines of a generation in the history: its heading, its version
/// changes (or that there are none), and a blank line.
pub open spec fn history_entry(
    header: Seq<char>,
    prev: Seq<(Seq<char>, Seq<char>)>,
    curr: Seq<(Seq<char>, Seq<char>)>,
) -> Seq<Seq<char>> {
    let ch = history_changes(prev, curr);
    seq![header] + (if ch.len() == 0 {
        seq!["  No changes."@]
    } else {
        ch
    }) + seq![Seq::<char>::empty()]
}

/// The line of a package whose version changed, if it changed.
fn push_version_change(out: &mut Vec<String>, pkg: &str, before_v: Option<&String>, after_v: Option<&String>)
    ensures
        views(final(out)@) == views(old(out)@) + version_change(
            pkg@,
            match before_v {
                Some(o) => Some(o@),
                None => None,
            },
            match after_v {
                Some(n) => Some(n@),
                None => None,
            },
        ),
{
    let mut none = String::new();
    crate::text::push_char(&mut none, '\u{2205}');
    assert(none@ =~= none_sign());
    let mut line = String::from_str("  ");
    line.append(pkg);
    line.append(": ");
    match (before_v, after_v) {
        (None, Some(n)) => {
            line.append(none.as_str());
            line.append(" -> ");
            line.append(n.as_str());
            out.push(line);
        },
        (Some(o), None) => {
            line.append(o.as_str());
            line.append(" -> ");
            line.append(none.as_str());
            out.push(line);
        },
        (Some(o), Some(n)) => {
            if !crate::text::text_eq(o.as_str(), n.as_str()) {
                line.append(o.as_str());
                line.append(" -> ");
                line.append(n.as_str());
                out.push(line);
            }
        },
        (None, None) => {},
    }
    assert(views(out@) =~= views(old(out)@) + version_change(
        pkg@,
        match before_v {
            Some(o) => Some(o@),
            None => None,
        },
        match after_v {
            Some(n) => Some(n@),
            None => None,
        },
    ));
}

/// The names of two maps of texts, one after the other.
fn all_names(a: &Vec<(String, String)>, b: &Vec<(String, String)>) -> (r: Vec<String>)
    ensures
        views(r@) == tkeys(tmap(a@)) + tkeys(tmap(b@)),
{
    let mut r: Vec<String> = Vec::new();
    let n = a.len();
    for i in 0..n
        invariant
            n == a@.len(),
            views(r@) == tkeys(tmap(a@)).take(i as int),
    {
        let ghost before = views(r@);
        r.push(owned(a[i].0.as_str()));
        assert(views(r@) =~= before.push(a@[i as int].0@));
        assert(tkeys(tmap(a@)).take(i + 1) =~= tkeys(tmap(a@)).take(i as int).push(a@[i as int].0@));
    }
    assert(tkeys(tmap(a@)).take(n as int) =~= tkeys(tmap(a@)));
    let m = b.len();
    for i in 0..m
        invariant
            m == b@.len(),
            views(r@) == tkeys(tmap(a@)) + tkeys(tmap(b@)).take(i as int),
    {
        let ghost before = views(r@);
        r.push(owned(b[i].0.as_str()));
        assert(views(r@) =~= before.push(b@[i as int].0@));
        assert(tkeys(tmap(b@)).take(i + 1) =~= tkeys(tmap(b@)).take(i as int).push(b@[i as int].0@));
    }
    assert(tkeys(tmap(b@)).take(m as int) =~= tkeys(tmap(b@)));
    r
}

/// The version changes from `prev` to `curr` (package names and versions),
/// one line per changed package in name order.
pub fn version_change_lines(prev: &Vec<(String, String)>, curr: &Vec<(String, String)>) -> (r: Vec<String>)
    ensures
        views(r@) == history_changes(tmap(prev@), tmap(curr@)),
{
    let names = all_names(prev, curr);
    let keys = sorted_set_of(&names);
    let ghost p = tmap(prev@);
    let ghost c = tmap(curr@);
    proof {
        assert((tkeys(p) + tkeys(c)).to_set() =~= tkeys(p).to_set() + tkeys(c).to_set()) by {
            assert forall|x: Seq<char>| (tkeys(p) + tkeys(c)).to_set().contains(x) <==> (tkeys(p).to_set()
                + tkeys(c).to_set()).contains(x) by {
                let s = tkeys(p) + tkeys(c);
                if s.to_set().contains(x) {
                    let i = choose|i: int| 0 <= i < s.len() && s[i] == x;
                    if i < tkeys(p).len() {
                        assert(tkeys(p)[i] == x);
                    } else {
                        assert(tkeys(c)[i - tkeys(p).len()] == x);
                    }
                }
                if tkeys(p).to_set().contains(x) {
                    let i = choose|i: int| 0 <= i < tkeys(p).len() && tkeys(p)[i] == x;
                    assert(s[i] == x);
                }
                if tkeys(c).to_set().contains(x) {
                    let i = choose|i: int| 0 <= i < tkeys(c).len() && tkeys(c)[i] == x;
                    assert(s[i + tkeys(p).len()] == x);
                }
            }
        }
        lemma_sorted_listing_is(views(keys@), tkeys(p).to_set() + tkeys(c).to_set());
    }
    let ghost ks = views(keys@);
    let mut out: Vec<String> = Vec::new();
    let n = keys.len();
    for i in 0..n
        invariant
            n == keys@.len(),
            ks == views(keys@),
            views(out@) == change_lines(ks.take(i as int), p, c),
            p == tmap(prev@),
            c == tmap(curr@),
    {
        let k = keys[i].as_str();
        let o = get_text(prev, k);
        let nw = get_text(curr, k);
        push_version_change(&mut out, k, o, nw);
        assert(ks.take(i + 1).drop_last() =~= ks.take(i as int));
        assert(ks.take(i + 1).last() == k@);
    }
    assert(ks.take(n as int) =~= ks);
    out
}

/// The lines of a generation in the history.
pub fn history_entry_lines(header: String, prev: &Vec<(String, String)>, curr: &Vec<(String, String)>) -> (r: Vec<String>)
    ensures
        views(r@) == history_entry(header@, tmap(prev@), tmap(curr@)),
{
    let ghost hv = header@;
    let changes = version_change_lines(prev, curr);
    let mut out: Vec<String> = Vec::new();
    out.push(header);
    if changes.len() == 0 {
        out.push(String::from_str("  No changes."));
    } else {
        let n = changes.len();
        for i in 0..n
            invariant
                n == changes@.len(),
                views(out@) == seq![hv] + views(changes@).take(i as int),
        {
            let ghost before = views(out@);
            out.push(owned(changes[i].as_str()));
            assert(views(out@) =~= before.push(changes@[i as int]@));
            assert(views(changes@).take(i + 1) =~= views(changes@).take(i as int).push(changes@[i as int]@));
        }
        assert(views(changes@).take(n as int) =~= views(changes@));
    }
    out.push(String::new());
    assert(views(out@) =~= history_entry(hv, tmap(prev@), tmap(curr@)));
    out
}

} // verus!
