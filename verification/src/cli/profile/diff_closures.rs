//! `profile diff-closures`: which packages of the closures of consecutive
//! generations changed, and the lines that report them.
use vstd::prelude::*;
use crate::text::{views, owned, text_eq};
use crate::numtext::decimal;
use crate::order::{sorted_listing, sorted_set_of, lemma_sorted_listing_is};
use crate::assoc::{vget, vkeys, keys_of, find_key, key_index};
use crate::cli::profile::common::group_texts;

verus! {

/// A package whose closure entry changed.
pub enum ClosureChange {
    /// In both closures with another store path.
    Changed { name: String, old_version: String, new_version: String, old_path: String, new_path: String },
    /// Only in the newer closure.
    Added { name: String, version: String, path: String },
    /// Only in the older closure.
    Removed { name: String, version: String, path: String },
}

/// A closure change as texts.
pub enum ChangeView {
    Changed(Seq<char>, Seq<char>, Seq<char>, Seq<char>, Seq<char>),
    Added(Seq<char>, Seq<char>, Seq<char>),
    Removed(Seq<char>, Seq<char>, Seq<char>),
}

impl ClosureChange {
    /// This change as texts.
    pub open spec fn view(self) -> ChangeView {
        match self {
            ClosureChange::Changed { name, old_version, new_version, old_path, new_path } => ChangeView::Changed(
                name@,
                old_version@,
                new_version@,
                old_path@,
                new_path@,
            ),
            ClosureChange::Added { name, version, path } => ChangeView::Added(name@, version@, path@),
            ClosureChange::Removed { name, version, path } => ChangeView::Removed(name@, version@, path@),
        }
    }
}

/// The texts of a list of changes.
pub open spec fn change_views(v: Seq<ClosureChange>) -> Seq<ChangeView> {
    v.map_values(|c: ClosureChange| c.view())
}

/// A grouping of a closure: package name, version and store path.
pub type Grouping = Seq<(Seq<char>, (Seq<char>, Seq<char>))>;

/// Entries that are not packages of their own.
pub open spec fn skipped_name(n: Seq<char>) -> bool {
    n == "profile"@ || n == "user-environment"@
}

/// How the package `n` changed from `prev` to `curr`.
pub open spec fn closure_change(n: Seq<char>, prev: Grouping, curr: Grouping) -> Seq<ChangeView> {
    if skipped_name(n) {
        Seq::empty()
    } else {
        match (vget(prev, n), vget(curr, n)) {
            (Some((pv, pp)), Some((cv, cp))) => if pp != cp {
                seq![ChangeView::Changed(n, pv, cv, pp, cp)]
            } else {
                Seq::empty()
            },
            (None, Some((cv, cp))) => seq![ChangeView::Added(n, cv, cp)],
            (Some((pv, pp)), None) => seq![ChangeView::Removed(n, pv, pp)],
            (None, None) => Seq::empty(),
        }
    }
}

/// The changes of the packages `names`, in order.
pub open spec fn closure_changes_of(names: Seq<Seq<char>>, prev: Grouping, curr: Grouping) -> Seq<ChangeView>
    decreases names.len(),
{
    if names.len() == 0 {
        Seq::empty()
    } else {
        closure_changes_of(names.drop_last(), prev, curr) + closure_change(names.last(), prev, curr)
    }
}

/// The changes between two closures, by package name in order.
pub open spec fn closure_diff(prev: Grouping, curr: Grouping) -> Seq<ChangeView> {
    closure_changes_of(sorted_listing(vkeys(prev).to_set() + vkeys(curr).to_set()), prev, curr)
}

proof fn lemma_same_closure_no_changes(names: Seq<Seq<char>>, g: Grouping)
    ensures
        closure_changes_of(names, g, g).len() == 0,
    decreases names.len(),
{
    if names.len() > 0 {
        lemma_same_closure_no_changes(names.drop_last(), g);
    }
}

/// A closure compared with itself shows no change.
pub proof fn closure_diff_with_itself_is_empty(g: Grouping)
    ensures
        closure_diff(g, g).len() == 0,
{
    lemma_same_closure_no_changes(sorted_listing(vkeys(g).to_set() + vkeys(g).to_set()), g);
}

/// The version and path of package `n` in a grouping.
fn lookup_package<'a>(g: &'a Vec<(String, (String, String))>, n: &str) -> (r: Option<&'a (String, String)>)
    ensures
        match r {
            Some(x) => vget(group_texts(g@), n@) == Some((x.0@, x.1@)),
            None => vget(group_texts(g@), n@).is_none(),
        },
{
    assert(keys_of(g@) =~= vkeys(group_texts(g@)));
    match find_key(g, n) {
        Some(i) => Some(&g[i].1),
        None => None,
    }
}

/// Adds how the package `n` changed.
fn push_closure_change(out: &mut Vec<ClosureChange>, n: &str, prev: &Vec<(String, (String, String))>, curr: &Vec<(String, (String, String))>)
    ensures
        change_views(final(out)@) == change_views(old(out)@) + closure_change(n@, group_texts(prev@), group_texts(curr@)),
{
    if text_eq(n, "profile") || text_eq(n, "user-environment") {
        assert(change_views(out@) =~= change_views(old(out)@) + Seq::<ChangeView>::empty());
        return;
    }
    let ghost before = change_views(out@);
    match (lookup_package(prev, n), lookup_package(curr, n)) {
        (Some(p), Some(c)) => {
            if !text_eq(p.1.as_str(), c.1.as_str()) {
                let ch = ClosureChange::Changed {
                    name: owned(n),
                    old_version: owned(p.0.as_str()),
                    new_version: owned(c.0.as_str()),
                    old_path: owned(p.1.as_str()),
                    new_path: owned(c.1.as_str()),
                };
                out.push(ch);
                assert(change_views(out@) =~= before.push(ch.view()));
            } else {
                assert(change_views(out@) =~= before + Seq::<ChangeView>::empty());
            }
        },
        (None, Some(c)) => {
            let ch = ClosureChange::Added { name: owned(n), version: owned(c.0.as_str()), path: owned(c.1.as_str()) };
            out.push(ch);
            assert(change_views(out@) =~= before.push(ch.view()));
        },
        (Some(p), None) => {
            let ch = ClosureChange::Removed { name: owned(n), version: owned(p.0.as_str()), path: owned(p.1.as_str()) };
            out.push(ch);
            assert(change_views(out@) =~= before.push(ch.view()));
        },
        (None, None) => {
            assert(change_views(out@) =~= before + Seq::<ChangeView>::empty());
        },
    }
}

/// The names of two groupings, one after the other.
fn grouping_names(a: &Vec<(String, (String, String))>, b: &Vec<(String, (String, String))>) -> (r: Vec<String>)
    ensures
        views(r@) == vkeys(group_texts(a@)) + vkeys(group_texts(b@)),
{
    let mut r: Vec<String> = Vec::new();
    let n = a.len();
    for i in 0..n
        invariant
            n == a@.len(),
            views(r@) == vkeys(group_texts(a@)).take(i as int),
    {
        let ghost before = views(r@);
        r.push(owned(a[i].0.as_str()));
        assert(views(r@) =~= before.push(a@[i as int].0@));
        assert(vkeys(group_texts(a@)).take(i + 1) =~= vkeys(group_texts(a@)).take(i as int).push(a@[i as int].0@));
    }
    assert(vkeys(group_texts(a@)).take(n as int) =~= vkeys(group_texts(a@)));
    let m = b.len();
    for i in 0..m
        invariant
            m == b@.len(),
            views(r@) == vkeys(group_texts(a@)) + vkeys(group_texts(b@)).take(i as int),
    {
        let ghost before = views(r@);
        r.push(owned(b[i].0.as_str()));
        assert(views(r@) =~= before.push(b@[i as int].0@));
        assert(vkeys(group_texts(b@)).take(i + 1) =~= vkeys(group_texts(b@)).take(i as int).push(b@[i as int].0@));
    }
    assert(vkeys(group_texts(b@)).take(m as int) =~= vkeys(group_texts(b@)));
    r
}

/// The packages that changed between the closures of two generations
/// (grouped by `group_by_package`), by name in order; `profile` and
/// `user-environment` are left out.
pub fn closure_changes(prev: &Vec<(String, (String, String))>, curr: &Vec<(String, (String, String))>) -> (r: Vec<ClosureChange>)
    ensures
        change_views(r@) == closure_diff(group_texts(prev@), group_texts(curr@)),
{
    let names = grouping_names(prev, curr);
    let keys = sorted_set_of(&names);
    let ghost p = vkeys(group_texts(prev@));
    let ghost c = vkeys(group_texts(curr@));
    proof {
        assert((p + c).to_set() =~= p.to_set() + c.to_set()) by {
            assert forall|x: Seq<char>| (p + c).to_set().contains(x) <==> (p.to_set() + c.to_set()).contains(x) by {
                let s = p + c;
                if s.to_set().contains(x) {
                    let i = choose|i: int| 0 <= i < s.len() && s[i] == x;
                    if i < p.len() {
                        assert(p[i] == x);
                    } else {
                        assert(c[i - p.len()] == x);
                    }
                }
                if p.to_set().contains(x) {
                    let i = choose|i: int| 0 <= i < p.len() && p[i] == x;
                    assert(s[i] == x);
                }
                if c.to_set().contains(x) {
                    let i = choose|i: int| 0 <= i < c.len() && c[i] == x;
                    assert(s[i + p.len()] == x);
                }
            }
        }
        lemma_sorted_listing_is(views(keys@), p.to_set() + c.to_set());
    }
    let ghost ks = views(keys@);
    let mut out: Vec<ClosureChange> = Vec::new();
    let n = keys.len();
    assert(change_views(out@) =~= Seq::<ChangeView>::empty());
    for i in 0..n
        invariant
            n == keys@.len(),
            ks == views(keys@),
            change_views(out@) == closure_changes_of(ks.take(i as int), group_texts(prev@), group_texts(curr@)),
    {
        push_closure_change(&mut out, keys[i].as_str(), prev, curr);
        assert(ks.take(i + 1).drop_last() =~= ks.take(i as int));
        assert(ks.take(i + 1).last() == keys@[i as int]@);
    }
    assert(ks.take(n as int) =~= ks);
    out
}

/// The line reporting a change, given how its size is shown: the size
/// difference for a changed package, the size for an added or removed one.
pub open spec fn closure_change_line_text(c: ChangeView, size: Seq<char>) -> Seq<char> {
    match c {
        ChangeView::Changed(n, pv, cv, _, _) => if pv != cv {
            "  "@ + n + ": "@ + pv + " -> "@ + cv + ", "@ + size
        } else {
            "  "@ + n + ": "@ + size
        },
        ChangeView::Added(n, cv, _) => "  "@ + n + ": "@ + seq!['\u{2205}'] + " -> "@ + cv + ", "@
            + seq!['\x1b', '[', '3', '1', ';', '1', 'm', '+'] + size + seq!['\x1b', '[', '0', 'm'],
        ChangeView::Removed(n, pv, _) => "  "@ + n + ": "@ + pv + " -> "@ + seq!['\u{2205}'] + ", -"@
            + size,
    }
}

/// The line reporting a change, given how its size is shown.
pub fn closure_change_line(c: &ClosureChange, size: &str) -> (r: String)
    ensures
        r@ == closure_change_line_text(c.view(), size@),
{
    let mut none = String::new();
    crate::text::push_char(&mut none, '\u{2205}');
    assert(none@ =~= seq!['\u{2205}']);
    let mut r = String::from_str("  ");
    match c {
        ClosureChange::Changed { name, old_version, new_version, .. } => {
            r.append(name.as_str());
            r.append(": ");
            if !text_eq(old_version.as_str(), new_version.as_str()) {
                r.append(old_version.as_str());
                r.append(" -> ");
                r.append(new_version.as_str());
                r.append(", ");
            }
            r.append(size);
        },
        ClosureChange::Added { name, version, .. } => {
            r.append(name.as_str());
            r.append(": ");
            r.append(none.as_str());
            r.append(" -> ");
            r.append(version.as_str());
            r.append(", ");
            r.append("\x1b[31;1m+");
            r.append(size);
            r.append("\x1b[0m");
            proof {
                reveal_strlit("\x1b[31;1m+");
                reveal_strlit("\x1b[0m");
            }
        },
        ClosureChange::Removed { name, version, .. } => {
            r.append(name.as_str());
            r.append(": ");
            r.append(version.as_str());
            r.append(" -> ");
            r.append(none.as_str());
            r.append(", -");
            r.append(size);
        },
    }
    assert(r@ =~= closure_change_line_text(c.view(), size@));
    r
}

/// The heading of the changes between two generations.
pub fn closure_diff_header(prev_num: u32, curr_num: u32) -> (r: String)
    ensures
        r@ == "Version "@ + decimal(prev_num as nat) + " -> "@ + decimal(curr_num as nat) + ":"@,
{
    let mut r = String::from_str("Version ");
    let a = crate::numtext::u64_text(prev_num as u64);
    r.append(a.as_str());
    r.append(" -> ");
    let b = crate::numtext::u64_text(curr_num as u64);
    r.append(b.as_str());
    r.append(":");
    r
}

/// The package a change is about.
pub open spec fn change_name(c: ChangeView) -> Seq<char> {
    match c {
        ChangeView::Changed(n, _, _, _, _) => n,
        ChangeView::Added(n, _, _) => n,
        ChangeView::Removed(n, _, _) => n,
    }
}

proof fn lemma_change_of_listed(names: Seq<Seq<char>>, j: int, prev: Grouping, curr: Grouping)
    requires
        0 <= j < names.len(),
        closure_change(names[j], prev, curr).len() > 0,
    ensures
        closure_changes_of(names, prev, curr).contains(closure_change(names[j], prev, curr)[0]),
    decreases names.len(),
{
    let pre = names.drop_last();
    let a = closure_changes_of(pre, prev, curr);
    let b = closure_change(names.last(), prev, curr);
    let x = closure_change(names[j], prev, curr)[0];
    if j == names.len() - 1 {
        assert((a + b)[a.len() as int] == x);
    } else {
        assert(pre[j] == names[j]);
        lemma_change_of_listed(pre, j, prev, curr);
        let i = choose|i: int| 0 <= i < a.len() && a[i] == x;
        assert((a + b)[i] == x);
    }
}

proof fn lemma_changes_of_named(names: Seq<Seq<char>>, prev: Grouping, curr: Grouping)
    ensures
        forall|i: int|
            0 <= i < closure_changes_of(names, prev, curr).len() ==> exists|j: int|
                0 <= j < names.len() && names[j] == change_name(#[trigger] closure_changes_of(names, prev, curr)[i])
                    && closure_change(names[j], prev, curr).len() > 0,
    decreases names.len(),
{
    if names.len() > 0 {
        let pre = names.drop_last();
        lemma_changes_of_named(pre, prev, curr);
        let a = closure_changes_of(pre, prev, curr);
        let b = closure_change(names.last(), prev, curr);
        let res = closure_changes_of(names, prev, curr);
        assert forall|i: int| 0 <= i < res.len() implies exists|j: int|
            0 <= j < names.len() && names[j] == change_name(#[trigger] res[i]) && closure_change(
                names[j],
                prev,
                curr,
            ).len() > 0 by {
            if i < a.len() {
                assert(res[i] == a[i]);
                let j = choose|j: int|
                    0 <= j < pre.len() && pre[j] == change_name(#[trigger] a[i]) && closure_change(
                        pre[j],
                        prev,
                        curr,
                    ).len() > 0;
                assert(names[j] == pre[j]);
            } else {
                assert(res[i] == b[i - a.len()]);
                assert(change_name(b[i - a.len()]) == names.last());
                assert(names[names.len() - 1] == names.last());
            }
        }
    }
}

proof fn lemma_listed_in_diff(prev: Grouping, curr: Grouping, n: Seq<char>)
    requires
        vget(prev, n) is Some,
    ensures
        sorted_listing(vkeys(prev).to_set() + vkeys(curr).to_set()).contains(n),
{
    let m = vkeys(prev).to_set() + vkeys(curr).to_set();
    crate::order::lemma_sorted_listing_exists(m);
    crate::assoc::lemma_key_index(vkeys(prev), n);
    assert(vkeys(prev).to_set().contains(n));
    assert(sorted_listing(m).to_set().contains(n));
}

/// A package in both closures whose store path changed is reported as
/// changed, with its two versions and paths, whether or not its version
/// changed.
pub proof fn changed_store_path_is_reported(
    prev: Grouping,
    curr: Grouping,
    n: Seq<char>,
    pv: Seq<char>,
    pp: Seq<char>,
    cv: Seq<char>,
    cp: Seq<char>,
)
    requires
        n != "profile"@,
        n != "user-environment"@,
        vget(prev, n) == Some((pv, pp)),
        vget(curr, n) == Some((cv, cp)),
        pp != cp,
    ensures
        closure_diff(prev, curr).contains(ChangeView::Changed(n, pv, cv, pp, cp)),
{
    let names = sorted_listing(vkeys(prev).to_set() + vkeys(curr).to_set());
    lemma_listed_in_diff(prev, curr, n);
    let j = choose|j: int| 0 <= j < names.len() && names[j] == n;
    lemma_change_of_listed(names, j, prev, curr);
}

/// A package in both closures whose store path stayed the same is not
/// reported, whatever its versions.
pub proof fn unchanged_store_path_is_not_reported(
    prev: Grouping,
    curr: Grouping,
    n: Seq<char>,
    pv: Seq<char>,
    cv: Seq<char>,
    p: Seq<char>,
)
    requires
        vget(prev, n) == Some((pv, p)),
        vget(curr, n) == Some((cv, p)),
    ensures
        forall|i: int| 0 <= i < closure_diff(prev, curr).len() ==> change_name(#[trigger] closure_diff(prev, curr)[i]) != n,
{
    let names = sorted_listing(vkeys(prev).to_set() + vkeys(curr).to_set());
    lemma_changes_of_named(names, prev, curr);
}

} // verus!
