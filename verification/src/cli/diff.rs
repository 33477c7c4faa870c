//! The `diff` command: what changed between two profile generations or two
//! derivations, and the report it prints.
use vstd::prelude::*;
use std::cmp::Ordering;
use crate::text::{views, owned, split_str, split_seq, text_eq, join_seq, has_prefix, has_suffix};
use crate::numtext::decimal;
use crate::paint::{Paint, paint, paint_if};
use crate::numtext::{parse_u64_text, parse_u64};
use crate::order::{lex_lt, lemma_lex_total, lemma_lex_irreflexive, text_lt};
use crate::assoc::{keys_of, key_index, lemma_key_index, find_key};
use crate::profile::{Manifest, ManifestElement, first_path_or_empty, first_path_of};
use crate::cli::profile::common::{store_path_parts, parse_store_path};
use crate::json::{Json, JVal, jget, jstr, jelems, jmembers, jget_str_or, elems_deep, members_deep};

verus! {

/// Options of the `diff` command.
pub struct DiffArgs {
    /// First installable, store path, or generation number.
    pub left: Option<String>,
    /// Second installable, store path, or generation number.
    pub right: Option<String>,
    /// Compare profile generations instead of installables.
    pub generation: bool,
    /// Profile to use.
    pub profile: Option<String>,
    /// Print the difference as JSON.
    pub json: bool,
    /// Include the full closure difference.
    pub closure: bool,
}

/// Which comparison `diff` makes.
pub enum DiffMode {
    /// Two profile generations.
    Generations,
    /// Two derivations.
    Derivations,
}

/// The comparison that `diff` makes: profile generations with
/// `--generation`, else derivations.
pub fn run(args: &DiffArgs) -> (r: DiffMode)
    ensures
        args.generation ==> r is Generations,
        !args.generation ==> r is Derivations,
{
    if args.generation {
        DiffMode::Generations
    } else {
        DiffMode::Derivations
    }
}

// ---------------------------------------------------------------------------
// Version order

/// How two version segments compare (-1, 0 or 1): by value when both are
/// numbers, else by their text.
#[verifier::opaque]
pub open spec fn segment_order(a: Seq<char>, b: Seq<char>) -> int {
    match (parse_u64_text(a), parse_u64_text(b)) {
        (Some(x), Some(y)) => if x < y {
            -1
        } else if x > y {
            1
        } else {
            0
        },
        _ => if lex_lt(a, b) {
            -1
        } else if lex_lt(b, a) {
            1
        } else {
            0
        },
    }
}

/// How two lists of version segments compare: by the first pair of
/// segments that differ, else by how many segments each has.
pub open spec fn segments_order(a: Seq<Seq<char>>, b: Seq<Seq<char>>) -> int
    decreases a.len(),
{
    if a.len() == 0 || b.len() == 0 {
        if a.len() < b.len() {
            -1
        } else if a.len() > b.len() {
            1
        } else {
            0
        }
    } else if segment_order(a[0], b[0]) != 0 {
        segment_order(a[0], b[0])
    } else {
        segments_order(a.drop_first(), b.drop_first())
    }
}

/// How two versions compare, segment by segment between the dots.
pub open spec fn version_order(a: Seq<char>, b: Seq<char>) -> int {
    segments_order(split_seq(a, seq!['.']), split_seq(b, seq!['.']))
}

/// How two version segments compare.
fn segment_order_code(a: &str, b: &str) -> (r: i8)
    ensures
        r as int == segment_order(a@, b@),
{
    proof { reveal(segment_order); }
    match (parse_u64(a), parse_u64(b)) {
        (Some(x), Some(y)) => if x < y {
            -1
        } else if x > y {
            1
        } else {
            0
        },
        _ => if text_lt(a, b) {
            -1
        } else if text_lt(b, a) {
            1
        } else {
            0
        },
    }
}

/// How two versions compare: -1, 0 or 1.
#[verifier::spinoff_prover]
pub fn version_order_code(a: &str, b: &str) -> (r: i8)
    ensures
        r as int == version_order(a@, b@),
{
    let mut dot = String::new();
    crate::text::push_char(&mut dot, '.');
    assert(dot@ =~= seq!['.']);
    let ap = split_str(a, dot.as_str());
    let bp = split_str(b, dot.as_str());
    let ghost sa = views(ap@);
    let ghost sb = views(bp@);
    let mut i: usize = 0;
    assert(sa.skip(0) =~= sa);
    assert(sb.skip(0) =~= sb);
    while i < ap.len() && i < bp.len()
        invariant
            sa == views(ap@),
            sb == views(bp@),
            i <= sa.len(),
            i <= sb.len(),
            segments_order(sa, sb) == segments_order(sa.skip(i as int), sb.skip(i as int)),
            version_order(a@, b@) == segments_order(sa, sb),
        decreases sa.len() - i,
    {
        let o = segment_order_code(ap[i].as_str(), bp[i].as_str());
        assert(sa.skip(i as int)[0] == sa[i as int]);
        assert(sb.skip(i as int)[0] == sb[i as int]);
        if o != 0 {
            assert(segments_order(sa.skip(i as int), sb.skip(i as int)) == o as int);
            return o;
        }
        assert(sa.skip(i as int).drop_first() =~= sa.skip(i + 1));
        assert(sb.skip(i as int).drop_first() =~= sb.skip(i + 1));
        i = i + 1;
    }
    if ap.len() < bp.len() {
        -1
    } else if ap.len() > bp.len() {
        1
    } else {
        0
    }
}

/// How two versions compare, segment by segment between the dots: numbers
/// by value, other segments by text, and a version that runs out of
/// segments first comes first.
pub fn version_cmp(a: &str, b: &str) -> (r: Ordering)
    ensures
        version_order(a@, b@) < 0 ==> r == Ordering::Less,
        version_order(a@, b@) == 0 ==> r == Ordering::Equal,
        version_order(a@, b@) > 0 ==> r == Ordering::Greater,
{
    let c = version_order_code(a, b);
    if c < 0 {
        Ordering::Less
    } else if c == 0 {
        Ordering::Equal
    } else {
        Ordering::Greater
    }
}

proof fn lemma_segment_order_flip(a: Seq<char>, b: Seq<char>)
    ensures
        segment_order(a, b) == -segment_order(b, a),
        segment_order(a, a) == 0,
{
    reveal(segment_order);
    lemma_lex_total(a, b);
    lemma_lex_irreflexive(a);
}

proof fn lemma_segments_order_flip(a: Seq<Seq<char>>, b: Seq<Seq<char>>)
    ensures
        segments_order(a, b) == -segments_order(b, a),
        segments_order(a, a) == 0,
    decreases a.len(),
{
    if a.len() > 0 && b.len() > 0 {
        lemma_segment_order_flip(a[0], b[0]);
        lemma_segment_order_flip(a[0], a[0]);
        lemma_segments_order_flip(a.drop_first(), b.drop_first());
        lemma_segments_order_flip(a.drop_first(), a.drop_first());
    } else if a.len() > 0 {
        lemma_segment_order_flip(a[0], a[0]);
        lemma_segments_order_flip(a.drop_first(), a.drop_first());
    }
}

/// Comparing versions is antisymmetric: swapping them flips the result,
/// and every version is equal to itself.
pub proof fn version_order_antisymmetric(a: Seq<char>, b: Seq<char>)
    ensures
        version_order(a, b) == -version_order(b, a),
        version_order(a, a) == 0,
        -1 <= version_order(a, b) <= 1,
{
    lemma_segments_order_flip(split_seq(a, seq!['.']), split_seq(b, seq!['.']));
    lemma_segments_order_flip(split_seq(a, seq!['.']), split_seq(a, seq!['.']));
    lemma_segments_order_range(split_seq(a, seq!['.']), split_seq(b, seq!['.']));
}

proof fn lemma_segments_order_range(a: Seq<Seq<char>>, b: Seq<Seq<char>>)
    ensures
        -1 <= segments_order(a, b) <= 1,
    decreases a.len(),
{
    if a.len() > 0 && b.len() > 0 {
        reveal(segment_order);
        lemma_segments_order_range(a.drop_first(), b.drop_first());
    }
}

// ---------------------------------------------------------------------------
// Comparing generations

/// A package of a generation.
pub struct PackageInfo {
    pub name: String,
    pub version: String,
    pub store_path: String,
}

/// A package whose version changed between two generations.
pub struct PackageUpgrade {
    pub name: String,
    pub old_version: String,
    pub new_version: String,
    pub old_path: String,
    pub new_path: String,
}

/// What changed between two generations.
pub struct GenerationDiff {
    pub added: Vec<PackageInfo>,
    pub removed: Vec<PackageInfo>,
    pub upgraded: Vec<PackageUpgrade>,
    pub downgraded: Vec<PackageUpgrade>,
    pub rebuilt: Vec<PackageInfo>,
}

/// A package as texts: name, version, store path.
pub type PkgView = (Seq<char>, Seq<char>, Seq<char>);

/// A version change as texts: name, old and new version, old and new path.
pub type UpgView = (Seq<char>, Seq<char>, Seq<char>, Seq<char>, Seq<char>);

/// The texts of packages.
pub open spec fn pkg_views(v: Seq<PackageInfo>) -> Seq<PkgView> {
    v.map_values(|p: PackageInfo| (p.name@, p.version@, p.store_path@))
}

/// The texts of version changes.
pub open spec fn upg_views(v: Seq<PackageUpgrade>) -> Seq<UpgView> {
    v.map_values(
        |p: PackageUpgrade| (p.name@, p.old_version@, p.new_version@, p.old_path@, p.new_path@),
    )
}

/// The version read from a store path, empty when it has none.
pub open spec fn path_version(p: Seq<char>) -> Seq<char> {
    match store_path_parts(p) {
        Some((_, v)) => v,
        None => Seq::empty(),
    }
}

/// A package as the diff lists it.
pub open spec fn package_info(name: Seq<char>, e: ManifestElement) -> PkgView {
    let p = first_path_or_empty(e);
    (name, path_version(p), p)
}

/// The packages of `right` whose names are not in `left`, in the order of `right`.
pub open spec fn added_packages(
    left: Seq<(String, ManifestElement)>,
    right: Seq<(String, ManifestElement)>,
) -> Seq<PkgView>
    decreases right.len(),
{
    if right.len() == 0 {
        Seq::empty()
    } else {
        let rest = added_packages(left, right.drop_last());
        let e = right.last();
        if keys_of(left).contains(e.0@) {
            rest
        } else {
            rest.push(package_info(e.0@, e.1))
        }
    }
}

/// How a package present in both generations changed.
pub enum Change {
    Same,
    Upgraded(UpgView),
    Downgraded(UpgView),
    Rebuilt(PkgView),
}

/// How the package `name` changed from `le` to `re`: not at all when its
/// store path stayed; a version change, up or down by `version_order`,
/// when the version read from the path changed; else a rebuild.
#[verifier::opaque]
pub open spec fn change_of(name: Seq<char>, le: ManifestElement, re: ManifestElement) -> Change {
    let lp = first_path_or_empty(le);
    let rp = first_path_or_empty(re);
    if lp == rp {
        Change::Same
    } else {
        let lv = path_version(lp);
        let rv = path_version(rp);
        if lv != rv {
            if version_order(lv, rv) < 0 {
                Change::Upgraded((name, lv, rv, lp, rp))
            } else {
                Change::Downgraded((name, lv, rv, lp, rp))
            }
        } else {
            Change::Rebuilt((name, rv, rp))
        }
    }
}

/// How the entry `e` of the left generation changed in `right`.
pub open spec fn change_in(right: Seq<(String, ManifestElement)>, e: (String, ManifestElement)) -> Change {
    let i = key_index(keys_of(right), e.0@);
    if i >= 0 {
        change_of(e.0@, e.1, right[i].1)
    } else {
        Change::Same
    }
}

/// The packages of `left` upgraded in `right`, in the order of `left`.
pub open spec fn upgraded_packages(
    left: Seq<(String, ManifestElement)>,
    right: Seq<(String, ManifestElement)>,
) -> Seq<UpgView>
    decreases left.len(),
{
    if left.len() == 0 {
        Seq::empty()
    } else {
        let rest = upgraded_packages(left.drop_last(), right);
        match change_in(right, left.last()) {
            Change::Upgraded(u) => rest.push(u),
            _ => rest,
        }
    }
}

/// The packages of `left` downgraded in `right`, in the order of `left`.
pub open spec fn downgraded_packages(
    left: Seq<(String, ManifestElement)>,
    right: Seq<(String, ManifestElement)>,
) -> Seq<UpgView>
    decreases left.len(),
{
    if left.len() == 0 {
        Seq::empty()
    } else {
        let rest = downgraded_packages(left.drop_last(), right);
        match change_in(right, left.last()) {
            Change::Downgraded(u) => rest.push(u),
            _ => rest,
        }
    }
}

/// The packages of `left` rebuilt in `right`, in the order of `left`.
pub open spec fn rebuilt_packages(
    left: Seq<(String, ManifestElement)>,
    right: Seq<(String, ManifestElement)>,
) -> Seq<PkgView>
    decreases left.len(),
{
    if left.len() == 0 {
        Seq::empty()
    } else {
        let rest = rebuilt_packages(left.drop_last(), right);
        match change_in(right, left.last()) {
            Change::Rebuilt(p) => rest.push(p),
            _ => rest,
        }
    }
}

/// The diff lists what `compare_manifests` owes.
pub open spec fn is_manifest_diff(d: GenerationDiff, left: Manifest, right: Manifest) -> bool {
    &&& pkg_views(d.added@) == added_packages(left.elements@, right.elements@)
    &&& pkg_views(d.removed@) == added_packages(right.elements@, left.elements@)
    &&& upg_views(d.upgraded@) == upgraded_packages(left.elements@, right.elements@)
    &&& upg_views(d.downgraded@) == downgraded_packages(left.elements@, right.elements@)
    &&& pkg_views(d.rebuilt@) == rebuilt_packages(left.elements@, right.elements@)
}

/// The version read from a store path, empty when it has none.
fn version_of_path(p: &str) -> (r: String)
    ensures
        r@ == path_version(p@),
{
    match parse_store_path(p) {
        Some((_, v)) => v,
        None => String::new(),
    }
}

/// A package as the diff lists it.
fn info_of(name: &String, e: &ManifestElement) -> (r: PackageInfo)
    ensures
        (r.name@, r.version@, r.store_path@) == package_info(name@, *e),
{
    let p = first_path_of(e);
    let v = version_of_path(p.as_str());
    PackageInfo { name: owned(name.as_str()), version: v, store_path: p }
}

/// The packages of `right` whose names `left` lacks.
fn added_between(
    left: &Vec<(String, ManifestElement)>,
    right: &Vec<(String, ManifestElement)>,
) -> (r: Vec<PackageInfo>)
    ensures
        pkg_views(r@) == added_packages(left@, right@),
{
    let n = right.len();
    let mut r: Vec<PackageInfo> = Vec::new();
    for i in 0..n
        invariant
            n == right@.len(),
            pkg_views(r@) == added_packages(left@, right@.take(i as int)),
    {
        assert(right@.take(i + 1).drop_last() =~= right@.take(i as int));
        assert(right@.take(i + 1).last() == right@[i as int]);
        let e = &right[i];
        proof { lemma_key_index(keys_of(left@), e.0@); }
        match find_key(left, e.0.as_str()) {
            Some(_) => {},
            None => {
                let ghost before = r@;
                r.push(info_of(&e.0, &e.1));
                assert(pkg_views(r@) =~= pkg_views(before).push(package_info(e.0@, e.1)));
            },
        }
    }
    assert(right@.take(n as int) =~= right@);
    r
}

/// How `name` changed from `le` to `re`.
fn change_between(name: &String, le: &ManifestElement, re: &ManifestElement) -> (r: (
    Option<PackageUpgrade>,
    bool,
    Option<PackageInfo>,
))
    ensures
        match change_of(name@, *le, *re) {
            Change::Same => r.0.is_none() && r.2.is_none(),
            Change::Upgraded(u) => r.2.is_none() && r.1 && (r.0 matches Some(x) && upg_views(
                seq![x],
            ) == seq![u]),
            Change::Downgraded(u) => r.2.is_none() && !r.1 && (r.0 matches Some(x) && upg_views(
                seq![x],
            ) == seq![u]),
            Change::Rebuilt(p) => r.0.is_none() && (r.2 matches Some(x) && pkg_views(seq![x])
                == seq![p]),
        },
{
    proof { reveal(change_of); }
    let lp = first_path_of(le);
    let rp = first_path_of(re);
    if text_eq(lp.as_str(), rp.as_str()) {
        return (None, false, None);
    }
    let lv = version_of_path(lp.as_str());
    let rv = version_of_path(rp.as_str());
    if !text_eq(lv.as_str(), rv.as_str()) {
        let up = version_order_code(lv.as_str(), rv.as_str()) < 0;
        let u = PackageUpgrade {
            name: owned(name.as_str()),
            old_version: lv,
            new_version: rv,
            old_path: lp,
            new_path: rp,
        };
        assert(upg_views(seq![u]) =~= seq![(u.name@, u.old_version@, u.new_version@, u.old_path@, u.new_path@)]);
        (Some(u), up, None)
    } else {
        let p = PackageInfo { name: owned(name.as_str()), version: rv, store_path: rp };
        assert(pkg_views(seq![p]) =~= seq![(p.name@, p.version@, p.store_path@)]);
        (None, false, Some(p))
    }
}

/// Adds to the lists how the entry `e` of the left generation changed in `re`.
#[verifier::rlimit(40)]
fn record_change(
    upgraded: &mut Vec<PackageUpgrade>,
    downgraded: &mut Vec<PackageUpgrade>,
    rebuilt: &mut Vec<PackageInfo>,
    e: &(String, ManifestElement),
    re: &Vec<(String, ManifestElement)>,
)
    ensures
        upg_views(final(upgraded)@) == (match change_in(re@, *e) {
            Change::Upgraded(u) => upg_views(old(upgraded)@).push(u),
            _ => upg_views(old(upgraded)@),
        }),
        upg_views(final(downgraded)@) == (match change_in(re@, *e) {
            Change::Downgraded(u) => upg_views(old(downgraded)@).push(u),
            _ => upg_views(old(downgraded)@),
        }),
        pkg_views(final(rebuilt)@) == (match change_in(re@, *e) {
            Change::Rebuilt(p) => pkg_views(old(rebuilt)@).push(p),
            _ => pkg_views(old(rebuilt)@),
        }),
{
    proof { lemma_key_index(keys_of(re@), e.0@); }
    match find_key(re, e.0.as_str()) {
        Some(j) => {
            assert(change_in(re@, *e) == change_of(e.0@, e.1, re@[j as int].1));
            let (u, up, b) = change_between(&e.0, &e.1, &re[j].1);
            match u {
                Some(x) => {
                    if up {
                        let ghost before = upgraded@;
                        upgraded.push(x);
                        assert(upg_views(upgraded@) =~= upg_views(before) + upg_views(seq![x]));
                    } else {
                        let ghost before = downgraded@;
                        downgraded.push(x);
                        assert(upg_views(downgraded@) =~= upg_views(before) + upg_views(seq![x]));
                    }
                },
                None => {},
            }
            match b {
                Some(x) => {
                    let ghost before = rebuilt@;
                    rebuilt.push(x);
                    assert(pkg_views(rebuilt@) =~= pkg_views(before) + pkg_views(seq![x]));
                },
                None => {},
            }
        },
        None => {
            assert(change_in(re@, *e) == Change::Same);
        },
    }
}

/// Compares the packages of two generations: what was added, removed,
/// upgraded, downgraded, or rebuilt at the same version.
pub fn compare_manifests(left: &Manifest, right: &Manifest) -> (r: GenerationDiff)
    ensures
        is_manifest_diff(r, *left, *right),
{
    let added = added_between(&left.elements, &right.elements);
    let removed = added_between(&right.elements, &left.elements);
    let le = &left.elements;
    let re = &right.elements;
    let n = le.len();
    let mut upgraded: Vec<PackageUpgrade> = Vec::new();
    let mut downgraded: Vec<PackageUpgrade> = Vec::new();
    let mut rebuilt: Vec<PackageInfo> = Vec::new();
    for i in 0..n
        invariant
            n == le@.len(),
            upg_views(upgraded@) == upgraded_packages(le@.take(i as int), re@),
            upg_views(downgraded@) == downgraded_packages(le@.take(i as int), re@),
            pkg_views(rebuilt@) == rebuilt_packages(le@.take(i as int), re@),
    {
        assert(le@.take(i + 1).drop_last() =~= le@.take(i as int));
        assert(le@.take(i + 1).last() == le@[i as int]);
        record_change(&mut upgraded, &mut downgraded, &mut rebuilt, &le[i], re);
    }
    assert(le@.take(n as int) =~= le@);
    GenerationDiff { added, removed, upgraded, downgraded, rebuilt }
}

proof fn lemma_nothing_added(left: Seq<(String, ManifestElement)>, right: Seq<(String, ManifestElement)>)
    requires
        forall|i: int| 0 <= i < right.len() ==> keys_of(left).contains(#[trigger] right[i].0@),
    ensures
        added_packages(left, right).len() == 0,
    decreases right.len(),
{
    if right.len() > 0 {
        let r = right.drop_last();
        assert forall|i: int| 0 <= i < r.len() implies keys_of(left).contains(#[trigger] r[i].0@) by {
            assert(r[i] == right[i]);
        }
        lemma_nothing_added(left, r);
        assert(keys_of(left).contains(right[right.len() - 1].0@));
    }
}

proof fn lemma_same_entry_unchanged(m: Seq<(String, ManifestElement)>, j: int)
    requires
        keys_of(m).no_duplicates(),
        0 <= j < m.len(),
    ensures
        change_in(m, m[j]) == Change::Same,
{
    let keys = keys_of(m);
    assert(keys[j] == m[j].0@);
    crate::assoc::lemma_key_index_is(keys, m[j].0@, j);
    reveal(change_of);
}

proof fn lemma_no_changes_in_prefix(m: Seq<(String, ManifestElement)>, k: int)
    requires
        keys_of(m).no_duplicates(),
        0 <= k <= m.len(),
    ensures
        upgraded_packages(m.take(k), m).len() == 0,
        downgraded_packages(m.take(k), m).len() == 0,
        rebuilt_packages(m.take(k), m).len() == 0,
    decreases k,
{
    if k > 0 {
        lemma_no_changes_in_prefix(m, k - 1);
        assert(m.take(k).drop_last() =~= m.take(k - 1));
        assert(m.take(k).last() == m[k - 1]);
        lemma_same_entry_unchanged(m, k - 1);
    }
}

/// A generation compared with itself shows no change: nothing added,
/// removed, upgraded, downgraded or rebuilt.
pub proof fn compare_with_itself_is_empty(m: Manifest, d: GenerationDiff)
    requires
        m.wf(),
        is_manifest_diff(d, m, m),
    ensures
        d.added@.len() == 0,
        d.removed@.len() == 0,
        d.upgraded@.len() == 0,
        d.downgraded@.len() == 0,
        d.rebuilt@.len() == 0,
{
    let e = m.elements@;
    assert forall|i: int| 0 <= i < e.len() implies keys_of(e).contains(#[trigger] e[i].0@) by {
        assert(keys_of(e)[i] == e[i].0@);
    }
    lemma_nothing_added(e, e);
    lemma_no_changes_in_prefix(e, e.len() as int);
    assert(e.take(e.len() as int) =~= e);
    assert(pkg_views(d.added@).len() == d.added@.len());
    assert(pkg_views(d.removed@).len() == d.removed@.len());
    assert(upg_views(d.upgraded@).len() == d.upgraded@.len());
    assert(upg_views(d.downgraded@).len() == d.downgraded@.len());
    assert(pkg_views(d.rebuilt@).len() == d.rebuilt@.len());
}

proof fn lemma_changes_classified(left: Seq<(String, ManifestElement)>, right: Seq<(String, ManifestElement)>)
    ensures
        forall|i: int| 0 <= i < upgraded_packages(left, right).len() ==> {
            let u = #[trigger] upgraded_packages(left, right)[i];
            version_order(u.1, u.2) < 0 && u.3 != u.4
        },
        forall|i: int| 0 <= i < downgraded_packages(left, right).len() ==> {
            let u = #[trigger] downgraded_packages(left, right)[i];
            version_order(u.1, u.2) >= 0 && u.1 != u.2 && u.3 != u.4
        },
    decreases left.len(),
{
    if left.len() > 0 {
        let h = left.drop_last();
        lemma_changes_classified(h, right);
        let e = left.last();
        let k = key_index(keys_of(right), e.0@);
        if k >= 0 {
            assert(change_in(right, e) == change_of(e.0@, e.1, right[k].1));
            reveal(change_of);
            let up = upgraded_packages(left, right);
            let uh = upgraded_packages(h, right);
            assert forall|i: int| 0 <= i < up.len() implies {
                let u = #[trigger] up[i];
                version_order(u.1, u.2) < 0 && u.3 != u.4
            } by {
                if i < uh.len() {
                    assert(up[i] == uh[i]);
                }
            }
            let dn = downgraded_packages(left, right);
            let dh = downgraded_packages(h, right);
            assert forall|i: int| 0 <= i < dn.len() implies {
                let u = #[trigger] dn[i];
                version_order(u.1, u.2) >= 0 && u.1 != u.2 && u.3 != u.4
            } by {
                if i < dh.len() {
                    assert(dn[i] == dh[i]);
                }
            }
        } else {
            assert(upgraded_packages(left, right) == upgraded_packages(h, right));
            assert(downgraded_packages(left, right) == downgraded_packages(h, right));
        }
    }
}

/// Every package listed as upgraded has a version that comes later by
/// `version_order`; every one listed as downgraded has another version
/// that does not; both changed their store path.
pub proof fn diff_changes_are_classified(d: GenerationDiff, left: Manifest, right: Manifest)
    requires
        is_manifest_diff(d, left, right),
    ensures
        forall|i: int| 0 <= i < d.upgraded@.len() ==> {
            let u = #[trigger] d.upgraded@[i];
            version_order(u.old_version@, u.new_version@) < 0 && u.old_path@ != u.new_path@
        },
        forall|i: int| 0 <= i < d.downgraded@.len() ==> {
            let u = #[trigger] d.downgraded@[i];
            version_order(u.old_version@, u.new_version@) >= 0 && u.old_version@ != u.new_version@
                && u.old_path@ != u.new_path@
        },
{
    lemma_changes_classified(left.elements@, right.elements@);
    assert forall|i: int| 0 <= i < d.upgraded@.len() implies {
        let u = #[trigger] d.upgraded@[i];
        version_order(u.old_version@, u.new_version@) < 0 && u.old_path@ != u.new_path@
    } by {
        assert(upg_views(d.upgraded@)[i] == upgraded_packages(left.elements@, right.elements@)[i]);
    }
    assert forall|i: int| 0 <= i < d.downgraded@.len() implies {
        let u = #[trigger] d.downgraded@[i];
        version_order(u.old_version@, u.new_version@) >= 0 && u.old_version@ != u.new_version@
            && u.old_path@ != u.new_path@
    } by {
        assert(upg_views(d.downgraded@)[i] == downgraded_packages(left.elements@, right.elements@)[i]);
    }
}

// ---------------------------------------------------------------------------
// Choosing the generations to compare

/// Why the generations to compare could not be chosen.
pub enum GenerationError {
    NoGenerations,
    NeedTwo,
    NoPrevious,
    BadLeft,
    BadRight,
    RightWithoutLeft,
    NotFound(u32),
}

/// The message shown for a generation error.
pub open spec fn generation_error_text(e: GenerationError) -> Seq<char> {
    match e {
        GenerationError::NoGenerations => "No profile generations found"@,
        GenerationError::NeedTwo => "Need at least 2 generations to compare"@,
        GenerationError::NoPrevious => "No previous generation found"@,
        GenerationError::BadLeft => "Expected generation number for LEFT"@,
        GenerationError::BadRight => "Expected generation number for RIGHT"@,
        GenerationError::RightWithoutLeft => "LEFT generation is required if RIGHT is specified"@,
        GenerationError::NotFound(g) => "Generation "@ + crate::numtext::decimal(g as nat) + " not found"@,
    }
}

impl GenerationError {
    /// The message shown for this error.
    pub fn message(&self) -> (r: String)
        ensures
            r@ == generation_error_text(*self),
    {
        match self {
            GenerationError::NoGenerations => String::from_str("No profile generations found"),
            GenerationError::NeedTwo => String::from_str("Need at least 2 generations to compare"),
            GenerationError::NoPrevious => String::from_str("No previous generation found"),
            GenerationError::BadLeft => String::from_str("Expected generation number for LEFT"),
            GenerationError::BadRight => String::from_str("Expected generation number for RIGHT"),
            GenerationError::RightWithoutLeft => String::from_str(
                "LEFT generation is required if RIGHT is specified",
            ),
            GenerationError::NotFound(g) => {
                let mut m = String::from_str("Generation ");
                let t = crate::numtext::u64_text(*g as u64);
                m.append(t.as_str());
                m.append(" not found");
                m
            },
        }
    }
}

/// What `str::parse::<u32>` returns for `s`.
pub open spec fn parse_u32_text(s: Seq<char>) -> Option<u32> {
    match parse_u64_text(s) {
        Some(n) => if n <= u32::MAX {
            Some(n as u32)
        } else {
            None
        },
        None => None,
    }
}

/// Reads a number as `str::parse::<u32>` does.
pub fn parse_u32(s: &str) -> (r: Option<u32>)
    ensures
        r == parse_u32_text(s@),
{
    match parse_u64(s) {
        Some(n) => if n <= 0xffff_ffff {
            Some(n as u32)
        } else {
            None
        },
        None => None,
    }
}

/// The largest element of `g`, or -1 when it is empty.
pub open spec fn seq_max(g: Seq<u32>) -> int
    decreases g.len(),
{
    if g.len() == 0 {
        -1
    } else if g.last() > seq_max(g.drop_last()) {
        g.last() as int
    } else {
        seq_max(g.drop_last())
    }
}

/// The largest element of `g` below `c`, or -1 when there is none.
pub open spec fn max_below(g: Seq<u32>, c: int) -> int
    decreases g.len(),
{
    if g.len() == 0 {
        -1
    } else if g.last() < c && g.last() > max_below(g.drop_last(), c) {
        g.last() as int
    } else {
        max_below(g.drop_last(), c)
    }
}

/// Both generations exist.
pub open spec fn both_exist(g: Seq<u32>, l: u32, r: u32) -> Result<(u32, u32), GenerationError> {
    if !g.contains(l) {
        Err(GenerationError::NotFound(l))
    } else if !g.contains(r) {
        Err(GenerationError::NotFound(r))
    } else {
        Ok((l, r))
    }
}

/// The two generations that `diff --generation` compares: by default the one
/// before the newest and the newest; with one number, that one and the
/// newest; with two, those two.  Each must exist.
pub open spec fn generation_choice(
    g: Seq<u32>,
    left: Option<Seq<char>>,
    right: Option<Seq<char>>,
) -> Result<(u32, u32), GenerationError> {
    if g.len() == 0 {
        Err(GenerationError::NoGenerations)
    } else {
        let cur = seq_max(g) as u32;
        match (left, right) {
            (None, None) => if g.len() < 2 {
                Err(GenerationError::NeedTwo)
            } else if max_below(g, cur as int) < 0 {
                Err(GenerationError::NoPrevious)
            } else {
                both_exist(g, max_below(g, cur as int) as u32, cur)
            },
            (Some(l), None) => match parse_u32_text(l) {
                None => Err(GenerationError::BadLeft),
                Some(lv) => both_exist(g, lv, cur),
            },
            (Some(l), Some(r)) => match parse_u32_text(l) {
                None => Err(GenerationError::BadLeft),
                Some(lv) => match parse_u32_text(r) {
                    None => Err(GenerationError::BadRight),
                    Some(rv) => both_exist(g, lv, rv),
                },
            },
            (None, Some(_)) => Err(GenerationError::RightWithoutLeft),
        }
    }
}

proof fn lemma_seq_max(g: Seq<u32>)
    requires
        g.len() > 0,
    ensures
        exists|j: int| 0 <= j < g.len() && g[j] as int == seq_max(g),
        forall|i: int| 0 <= i < g.len() ==> g[i] <= seq_max(g),
    decreases g.len(),
{
    let h = g.drop_last();
    assert(g[g.len() - 1] == g.last());
    if h.len() > 0 {
        lemma_seq_max(h);
        let j = choose|j: int| 0 <= j < h.len() && h[j] as int == seq_max(h);
        assert(g[j] == h[j]);
        if g.last() > seq_max(h) {
            assert(g[g.len() - 1] as int == seq_max(g));
        } else {
            assert(g[j] as int == seq_max(g));
        }
        assert forall|i: int| 0 <= i < g.len() implies g[i] <= seq_max(g) by {
            if i < h.len() {
                assert(g[i] == h[i]);
            }
        }
    } else {
        assert(seq_max(h) == -1);
        assert(g[g.len() - 1] as int == seq_max(g));
    }
}

proof fn lemma_max_below(g: Seq<u32>, c: int)
    requires
        c >= 0,
    ensures
        max_below(g, c) < c,
        max_below(g, c) >= 0 ==> exists|j: int| 0 <= j < g.len() && g[j] as int == max_below(g, c),
        forall|i: int| 0 <= i < g.len() && g[i] < c ==> g[i] <= max_below(g, c),
    decreases g.len(),
{
    if g.len() > 0 {
        let h = g.drop_last();
        lemma_max_below(h, c);
        assert(g[g.len() - 1] == g.last());
        if max_below(h, c) >= 0 {
            let j = choose|j: int| 0 <= j < h.len() && h[j] as int == max_below(h, c);
            assert(g[j] == h[j]);
        }
        assert forall|i: int| 0 <= i < g.len() && g[i] < c implies g[i] <= max_below(g, c) by {
            if i < h.len() {
                assert(g[i] == h[i]);
            }
        }
    }
}

/// Two chosen generations always exist; without arguments they are the
/// newest and the newest one older than it.
pub proof fn chosen_generations_exist(g: Seq<u32>, left: Option<Seq<char>>, right: Option<Seq<char>>)
    ensures
        generation_choice(g, left, right) matches Ok((l, r)) ==> g.contains(l) && g.contains(r),
        generation_choice(g, None, None) matches Ok((l, r)) ==> {
            &&& l < r
            &&& forall|i: int| 0 <= i < g.len() ==> g[i] <= r
            &&& forall|i: int| 0 <= i < g.len() && g[i] < r ==> g[i] <= l
        },
{
    if g.len() > 0 {
        lemma_seq_max(g);
        let j = choose|j: int| 0 <= j < g.len() && g[j] as int == seq_max(g);
        assert(seq_max(g) as u32 == g[j]);
        lemma_max_below(g, seq_max(g));
        if max_below(g, seq_max(g)) >= 0 {
            let k = choose|k: int| 0 <= k < g.len() && g[k] as int == max_below(g, seq_max(g));
            assert(max_below(g, seq_max(g)) as u32 == g[k]);
        }
    }
}

/// Whether `g` holds `x`.
fn holds(g: &Vec<u32>, x: u32) -> (r: bool)
    ensures
        r == g@.contains(x),
{
    let n = g.len();
    for i in 0..n
        invariant
            n == g@.len(),
            forall|j: int| 0 <= j < i ==> g@[j] != x,
    {
        if g[i] == x {
            return true;
        }
    }
    false
}

/// Both generations exist.
fn check_both(g: &Vec<u32>, l: u32, r: u32) -> (res: Result<(u32, u32), GenerationError>)
    ensures
        res == both_exist(g@, l, r),
{
    if !holds(g, l) {
        Err(GenerationError::NotFound(l))
    } else if !holds(g, r) {
        Err(GenerationError::NotFound(r))
    } else {
        Ok((l, r))
    }
}

/// Chooses the two generations that `diff --generation` compares, from the
/// generation numbers that exist and the LEFT and RIGHT arguments.
pub fn select_generations(
    generations: &Vec<u32>,
    left: Option<&str>,
    right: Option<&str>,
) -> (r: Result<(u32, u32), GenerationError>)
    ensures
        r == generation_choice(
            generations@,
            match left {
                Some(l) => Some(l@),
                None => None,
            },
            match right {
                Some(x) => Some(x@),
                None => None,
            },
        ),
{
    let g = generations;
    let n = g.len();
    if n == 0 {
        return Err(GenerationError::NoGenerations);
    }
    let mut cur: u32 = 0;
    let mut seen: bool = false;
    for i in 0..n
        invariant
            n == g@.len(),
            seen == (i > 0),
            seen ==> cur as int == seq_max(g@.take(i as int)),
            !seen ==> seq_max(g@.take(i as int)) == -1,
    {
        assert(g@.take(i + 1).drop_last() =~= g@.take(i as int));
        assert(g@.take(i + 1).last() == g@[i as int]);
        if !seen || g[i] > cur {
            cur = g[i];
        }
        seen = true;
    }
    assert(g@.take(n as int) =~= g@);
    match (left, right) {
        (None, None) => {
            if n < 2 {
                return Err(GenerationError::NeedTwo);
            }
            let mut prev: u32 = 0;
            let mut found: bool = false;
            for i in 0..n
                invariant
                    n == g@.len(),
                    found ==> prev as int == max_below(g@.take(i as int), cur as int),
                    !found ==> max_below(g@.take(i as int), cur as int) == -1,
            {
                assert(g@.take(i + 1).drop_last() =~= g@.take(i as int));
                assert(g@.take(i + 1).last() == g@[i as int]);
                if g[i] < cur && (!found || g[i] > prev) {
                    prev = g[i];
                    found = true;
                }
            }
            if !found {
                return Err(GenerationError::NoPrevious);
            }
            check_both(g, prev, cur)
        },
        (Some(l), None) => match parse_u32(l) {
            None => Err(GenerationError::BadLeft),
            Some(lv) => check_both(g, lv, cur),
        },
        (Some(l), Some(r)) => match parse_u32(l) {
            None => Err(GenerationError::BadLeft),
            Some(lv) => match parse_u32(r) {
                None => Err(GenerationError::BadRight),
                Some(rv) => check_both(g, lv, rv),
            },
        },
        (None, Some(_)) => Err(GenerationError::RightWithoutLeft),
    }
}

// ---------------------------------------------------------------------------
// Comparing derivations

/// What the diff reads of a derivation.
pub struct ParsedDerivation {
    /// Input derivations and the outputs used of each.
    pub input_drvs: Vec<(String, Vec<String>)>,
    pub input_srcs: Vec<String>,
    pub platform: String,
    pub builder: String,
    pub args: Vec<String>,
    pub env: Vec<(String, String)>,
}

/// A changed input derivation: its package name, old and new path.
pub struct InputChange {
    pub name: String,
    pub old_drv: String,
    pub new_drv: String,
}

/// A changed environment variable.
pub struct EnvChange {
    pub key: String,
    pub old_value: String,
    pub new_value: String,
}

/// What changed between two derivations.
pub struct DerivationDiff {
    pub platform_changed: Option<(String, String)>,
    pub builder_changed: Option<(String, String)>,
    pub args_changed: bool,
    pub added_inputs: Vec<String>,
    pub removed_inputs: Vec<String>,
    pub changed_inputs: Vec<InputChange>,
    pub added_srcs: Vec<String>,
    pub removed_srcs: Vec<String>,
    pub env_added: Vec<String>,
    pub env_removed: Vec<String>,
    pub env_changed: Vec<EnvChange>,
}

/// What `std::path::Path::file_stem` gives for a file name `f`: the part
/// before its last `.`, or all of it when it has no `.` but at its start.
pub open spec fn stem_of(f: Seq<char>) -> Seq<char> {
    let d = crate::text::last_occurrence(f, seq!['.']);
    if d <= 0 {
        f
    } else {
        f.take(d)
    }
}

/// Calls `std::path::Path::file_stem` on the path `p`.  Its documentation
/// defines the stem from the file name: none without a file name, else the
/// file name up to its last `.` (all of it when there is no `.` but at the
/// start).
#[verifier::external_body]
fn file_stem_of(p: &str) -> (r: Option<String>)
    ensures
        match crate::cli::profile::common::path_file_name(p@) {
            None => r.is_none(),
            Some(f) => r matches Some(s) && s@ == stem_of(f),
        },
{
    std::path::Path::new(p).file_stem().map(|s| s.to_string_lossy().to_string())
}

/// What follows the first `-` of `s`, if it has one.
pub open spec fn after_first_dash(s: Seq<char>) -> Option<Seq<char>> {
    let d = crate::text::first_occurrence(s, seq!['-']);
    if d >= 0 {
        Some(s.skip(d + 1))
    } else {
        None
    }
}

/// The package name of an input derivation `/nix/store/hash-name-1.2.3.drv`:
/// its file stem after the first `-`, else the whole path.
#[verifier::opaque]
pub open spec fn input_name(drv: Seq<char>) -> Seq<char> {
    match crate::cli::profile::common::path_file_name(drv) {
        Some(f) => match after_first_dash(stem_of(f)) {
            Some(n) => n,
            None => drv,
        },
        None => drv,
    }
}

/// What follows the first `-` of `s`, if it has one.
fn after_dash(s: &str) -> (r: Option<String>)
    ensures
        match after_first_dash(s@) {
            Some(n) => r matches Some(x) && x@ == n,
            None => r.is_none(),
        },
{
    let v = crate::text::chars_of(s);
    let mut dash: Vec<char> = Vec::new();
    dash.push('-');
    assert(dash@ =~= seq!['-']);
    proof { crate::text::lemma_first_occurrence(v@, dash@); }
    let vl = v.len();
    match crate::text::find_seq(&v, &dash) {
        Some(d) => {
            assert(d < vl);
            let r = crate::text::string_of_range(&v, d + 1, v.len());
            assert(r@ =~= s@.skip(d + 1));
            Some(r)
        },
        None => None,
    }
}

/// The package name of an input derivation path.
pub fn extract_input_name(drv_path: &str) -> (r: String)
    ensures
        r@ == input_name(drv_path@),
{
    proof { reveal(input_name); }
    match file_stem_of(drv_path) {
        Some(stem) => match after_dash(stem.as_str()) {
            Some(n) => n,
            None => owned(drv_path),
        },
        None => owned(drv_path),
    }
}

/// A package name without a version: the part before its last `-` when a
/// digit follows that `-`.
pub open spec fn base_name(name: Seq<char>) -> Seq<char> {
    let pos = crate::text::last_occurrence(name, seq!['-']);
    if pos >= 0 && pos + 1 < name.len() && crate::numtext::is_digit(name[pos + 1]) {
        name.take(pos)
    } else {
        name
    }
}

/// The keys of a map of derivation inputs, as texts.
pub open spec fn input_keys(m: Seq<(String, Vec<String>)>) -> Seq<Seq<char>> {
    keys_of(m)
}

/// Input derivations by base package name; a later one replaces an earlier
/// one of the same name.
pub open spec fn inputs_by_name(drvs: Seq<Seq<char>>) -> Seq<(Seq<char>, Seq<char>)>
    decreases drvs.len(),
{
    if drvs.len() == 0 {
        Seq::empty()
    } else {
        let d = drvs.last();
        crate::assoc::tput(inputs_by_name(drvs.drop_last()), base_name(input_name(d)), d)
    }
}

/// The base package name of a package name.
fn base_name_of(name: &str) -> (r: String)
    ensures
        r@ == base_name(name@),
{
    let v = crate::text::chars_of(name);
    let mut dash: Vec<char> = Vec::new();
    dash.push('-');
    assert(dash@ =~= seq!['-']);
    proof { crate::text::lemma_last_occurrence(v@, dash@); }
    let vl = v.len();
    match crate::text::rfind_seq(&v, &dash) {
        Some(pos) => {
            assert(pos < vl);
            if pos + 1 < v.len() && '0' <= v[pos + 1] && v[pos + 1] <= '9' {
                let r = crate::text::string_of_range(&v, 0, pos);
                assert(r@ =~= name@.take(pos as int));
                return r;
            }
            owned(name)
        },
        None => owned(name),
    }
}

proof fn lemma_inputs_by_name_step(ks: Seq<Seq<char>>, i: int)
    requires
        0 <= i < ks.len(),
    ensures
        inputs_by_name(ks.take(i + 1)) == crate::assoc::tput(
            inputs_by_name(ks.take(i)),
            base_name(input_name(ks[i])),
            ks[i],
        ),
{
    assert(ks.take(i + 1).drop_last() =~= ks.take(i));
    assert(ks.take(i + 1).last() == ks[i]);
}

/// Groups input derivations by base package name.
pub fn group_inputs_by_name(inputs: &Vec<(String, Vec<String>)>) -> (r: Vec<(String, String)>)
    ensures
        crate::assoc::tmap(r@) == inputs_by_name(input_keys(inputs@)),
{
    let n = inputs.len();
    let ghost ks = input_keys(inputs@);
    let mut r: Vec<(String, String)> = Vec::new();
    for i in 0..n
        invariant
            n == inputs@.len(),
            ks == input_keys(inputs@),
            crate::assoc::tmap(r@) == inputs_by_name(ks.take(i as int)),
    {
        proof { lemma_inputs_by_name_step(ks, i as int); }
        assert(ks[i as int] == inputs@[i as int].0@);
        let drv = &inputs[i].0;
        let name = extract_input_name(drv.as_str());
        let base = base_name_of(name.as_str());
        crate::assoc::put_text(&mut r, base, owned(drv.as_str()));
    }
    assert(ks.take(n as int) =~= ks);
    r
}

/// The elements of `xs` that `have` lacks, each once, in the order they
/// first occur.
pub open spec fn fresh_distinct(have: Seq<Seq<char>>, xs: Seq<Seq<char>>) -> Seq<Seq<char>>
    decreases xs.len(),
{
    if xs.len() == 0 {
        Seq::empty()
    } else {
        let rest = fresh_distinct(have, xs.drop_last());
        let x = xs.last();
        if have.contains(x) || rest.contains(x) {
            rest
        } else {
            rest.push(x)
        }
    }
}

/// Whether `v` holds the text `x`.
pub fn holds_text(v: &Vec<String>, x: &str) -> (r: bool)
    ensures
        r == views(v@).contains(x@),
{
    let n = v.len();
    for i in 0..n
        invariant
            n == v@.len(),
            forall|j: int| 0 <= j < i ==> views(v@)[j] != x@,
    {
        if text_eq(v[i].as_str(), x) {
            assert(views(v@)[i as int] == x@);
            return true;
        }
    }
    false
}

/// The elements of `xs` that `have` lacks, each once.
pub fn fresh_texts(have: &Vec<String>, xs: &Vec<String>) -> (r: Vec<String>)
    ensures
        views(r@) == fresh_distinct(views(have@), views(xs@)),
{
    let n = xs.len();
    let mut r: Vec<String> = Vec::new();
    for i in 0..n
        invariant
            n == xs@.len(),
            views(r@) == fresh_distinct(views(have@), views(xs@).take(i as int)),
    {
        let ghost t = views(xs@).take(i + 1);
        assert(t.drop_last() =~= views(xs@).take(i as int));
        assert(t.last() == xs@[i as int]@);
        let x = xs[i].as_str();
        if !holds_text(have, x) && !holds_text(&r, x) {
            let ghost before = r@;
            r.push(owned(x));
            assert(views(r@) =~= views(before).push(x@));
        }
    }
    assert(views(xs@).take(n as int) =~= views(xs@));
    r
}

/// Environment variables the diff does not compare.
pub open spec fn ignored_env_key(k: Seq<char>) -> bool {
    k == "out"@ || k == "outputs"@ || k == "drvPath"@ || k == "builder"@
}

/// The keys of an environment that the diff compares, in order.
pub open spec fn compared_keys(env: Seq<(String, String)>) -> Seq<Seq<char>>
    decreases env.len(),
{
    if env.len() == 0 {
        Seq::empty()
    } else {
        let rest = compared_keys(env.drop_last());
        let k = env.last().0@;
        if ignored_env_key(k) {
            rest
        } else {
            rest.push(k)
        }
    }
}

/// Input derivations whose package is in both, with a different path.
pub open spec fn changed_inputs_spec(
    l: Seq<(Seq<char>, Seq<char>)>,
    r: Seq<(Seq<char>, Seq<char>)>,
) -> Seq<(Seq<char>, Seq<char>, Seq<char>)>
    decreases l.len(),
{
    if l.len() == 0 {
        Seq::empty()
    } else {
        let rest = changed_inputs_spec(l.drop_last(), r);
        let (n, ld) = l.last();
        match crate::assoc::tget(r, n) {
            Some(rd) => if rd != ld {
                rest.push((n, ld, rd))
            } else {
                rest
            },
            None => rest,
        }
    }
}

/// Environment variables in both with a different value (the first value
/// of each key).
pub open spec fn changed_env_spec(
    keys: Seq<Seq<char>>,
    l: Seq<(Seq<char>, Seq<char>)>,
    r: Seq<(Seq<char>, Seq<char>)>,
) -> Seq<(Seq<char>, Seq<char>, Seq<char>)>
    decreases keys.len(),
{
    if keys.len() == 0 {
        Seq::empty()
    } else {
        let rest = changed_env_spec(keys.drop_last(), l, r);
        let k = keys.last();
        match (crate::assoc::tget(l, k), crate::assoc::tget(r, k)) {
            (Some(lv), Some(rv)) => if lv != rv {
                rest.push((k, lv, rv))
            } else {
                rest
            },
            _ => rest,
        }
    }
}

/// The texts of input changes.
pub open spec fn input_change_views(v: Seq<InputChange>) -> Seq<(Seq<char>, Seq<char>, Seq<char>)> {
    v.map_values(|c: InputChange| (c.name@, c.old_drv@, c.new_drv@))
}

/// The texts of environment changes.
pub open spec fn env_change_views(v: Seq<EnvChange>) -> Seq<(Seq<char>, Seq<char>, Seq<char>)> {
    v.map_values(|c: EnvChange| (c.key@, c.old_value@, c.new_value@))
}

/// A pair of texts that differ, else nothing.
pub open spec fn changed_pair(a: Seq<char>, b: Seq<char>) -> Option<(Seq<char>, Seq<char>)> {
    if a != b {
        Some((a, b))
    } else {
        None
    }
}

/// The texts of an optional pair.
pub open spec fn opt_pair_view(p: Option<(String, String)>) -> Option<(Seq<char>, Seq<char>)> {
    match p {
        Some((a, b)) => Some((a@, b@)),
        None => None,
    }
}

/// The diff lists what `compare_derivations` owes.
pub open spec fn is_derivation_diff(d: DerivationDiff, l: ParsedDerivation, r: ParsedDerivation) -> bool {
    let lk = input_keys(l.input_drvs@);
    let rk = input_keys(r.input_drvs@);
    &&& opt_pair_view(d.platform_changed) == changed_pair(l.platform@, r.platform@)
    &&& opt_pair_view(d.builder_changed) == changed_pair(l.builder@, r.builder@)
    &&& d.args_changed == (views(l.args@) != views(r.args@))
    &&& views(d.added_inputs@) == fresh_distinct(lk, rk).map_values(|k: Seq<char>| input_name(k))
    &&& views(d.removed_inputs@) == fresh_distinct(rk, lk).map_values(|k: Seq<char>| input_name(k))
    &&& input_change_views(d.changed_inputs@) == changed_inputs_spec(inputs_by_name(lk), inputs_by_name(rk))
    &&& views(d.added_srcs@) == fresh_distinct(views(l.input_srcs@), views(r.input_srcs@))
    &&& views(d.removed_srcs@) == fresh_distinct(views(r.input_srcs@), views(l.input_srcs@))
    &&& views(d.env_added@) == fresh_distinct(compared_keys(l.env@), compared_keys(r.env@))
    &&& views(d.env_removed@) == fresh_distinct(compared_keys(r.env@), compared_keys(l.env@))
    &&& env_change_views(d.env_changed@) == changed_env_spec(
        fresh_distinct(Seq::empty(), compared_keys(l.env@)),
        crate::assoc::tmap(l.env@),
        crate::assoc::tmap(r.env@),
    )
}

proof fn lemma_inputs_by_name_distinct(drvs: Seq<Seq<char>>)
    ensures
        crate::assoc::tkeys(inputs_by_name(drvs)).no_duplicates(),
    decreases drvs.len(),
{
    if drvs.len() == 0 {
        assert(crate::assoc::tkeys(inputs_by_name(drvs)) =~= Seq::<Seq<char>>::empty());
    } else {
        lemma_inputs_by_name_distinct(drvs.drop_last());
        let d = drvs.last();
        crate::assoc::lemma_tput_keeps_keys_distinct(inputs_by_name(drvs.drop_last()), base_name(input_name(d)), d);
    }
}

proof fn lemma_no_changed_inputs(m: Seq<(Seq<char>, Seq<char>)>, k: int)
    requires
        crate::assoc::tkeys(m).no_duplicates(),
        0 <= k <= m.len(),
    ensures
        changed_inputs_spec(m.take(k), m).len() == 0,
    decreases k,
{
    if k > 0 {
        lemma_no_changed_inputs(m, k - 1);
        assert(m.take(k).drop_last() =~= m.take(k - 1));
        assert(m.take(k).last() == m[k - 1]);
        crate::assoc::lemma_tget_distinct(m, k - 1);
    }
}

proof fn lemma_nothing_fresh(have: Seq<Seq<char>>, xs: Seq<Seq<char>>)
    requires
        forall|i: int| 0 <= i < xs.len() ==> have.contains(#[trigger] xs[i]),
    ensures
        fresh_distinct(have, xs).len() == 0,
    decreases xs.len(),
{
    if xs.len() > 0 {
        let r = xs.drop_last();
        assert forall|i: int| 0 <= i < r.len() implies have.contains(#[trigger] r[i]) by {
            assert(r[i] == xs[i]);
        }
        lemma_nothing_fresh(have, r);
        assert(have.contains(xs[xs.len() - 1]));
    }
}

proof fn lemma_nothing_fresh_in_itself(xs: Seq<Seq<char>>)
    ensures
        fresh_distinct(xs, xs).len() == 0,
{
    assert forall|i: int| 0 <= i < xs.len() implies xs.contains(#[trigger] xs[i]) by {}
    lemma_nothing_fresh(xs, xs);
}

proof fn lemma_same_env_unchanged(keys: Seq<Seq<char>>, t: Seq<(Seq<char>, Seq<char>)>)
    ensures
        changed_env_spec(keys, t, t).len() == 0,
    decreases keys.len(),
{
    if keys.len() > 0 {
        lemma_same_env_unchanged(keys.drop_last(), t);
    }
}

/// A derivation compared with itself shows no change of any kind.
pub proof fn compare_derivation_with_itself_is_empty(p: ParsedDerivation, d: DerivationDiff)
    requires
        is_derivation_diff(d, p, p),
    ensures
        !has_derivation_changes(d),
{
    let lk = input_keys(p.input_drvs@);
    lemma_nothing_fresh_in_itself(lk);
    assert(fresh_distinct(lk, lk).map_values(|k: Seq<char>| input_name(k)).len() == 0);
    lemma_nothing_fresh_in_itself(views(p.input_srcs@));
    lemma_nothing_fresh_in_itself(compared_keys(p.env@));
    let m = inputs_by_name(lk);
    lemma_inputs_by_name_distinct(lk);
    lemma_no_changed_inputs(m, m.len() as int);
    assert(m.take(m.len() as int) =~= m);
    lemma_same_env_unchanged(fresh_distinct(Seq::empty(), compared_keys(p.env@)), crate::assoc::tmap(p.env@));
    assert(views(d.added_inputs@).len() == d.added_inputs@.len());
    assert(views(d.removed_inputs@).len() == d.removed_inputs@.len());
    assert(input_change_views(d.changed_inputs@).len() == d.changed_inputs@.len());
    assert(views(d.added_srcs@).len() == d.added_srcs@.len());
    assert(views(d.removed_srcs@).len() == d.removed_srcs@.len());
    assert(views(d.env_added@).len() == d.env_added@.len());
    assert(views(d.env_removed@).len() == d.env_removed@.len());
    assert(env_change_views(d.env_changed@).len() == d.env_changed@.len());
}

/// Whether two lists of texts are equal.
pub fn texts_eq(a: &Vec<String>, b: &Vec<String>) -> (r: bool)
    ensures
        r == (views(a@) == views(b@)),
{
    if a.len() != b.len() {
        assert(views(a@).len() != views(b@).len());
        return false;
    }
    let n = a.len();
    for i in 0..n
        invariant
            n == a@.len(),
            n == b@.len(),
            forall|j: int| 0 <= j < i ==> views(a@)[j] == views(b@)[j],
    {
        if !text_eq(a[i].as_str(), b[i].as_str()) {
            assert(views(a@)[i as int] != views(b@)[i as int]);
            return false;
        }
    }
    assert(views(a@) =~= views(b@));
    true
}

/// A pair of texts that differ, else nothing.
fn changed_texts(a: &String, b: &String) -> (r: Option<(String, String)>)
    ensures
        opt_pair_view(r) == changed_pair(a@, b@),
{
    if text_eq(a.as_str(), b.as_str()) {
        None
    } else {
        Some((owned(a.as_str()), owned(b.as_str())))
    }
}

/// The keys of a map of derivation inputs.
fn input_key_list(m: &Vec<(String, Vec<String>)>) -> (r: Vec<String>)
    ensures
        views(r@) == input_keys(m@),
{
    let n = m.len();
    let mut r: Vec<String> = Vec::new();
    for i in 0..n
        invariant
            n == m@.len(),
            views(r@) == input_keys(m@).take(i as int),
    {
        let ghost before = r@;
        r.push(owned(m[i].0.as_str()));
        assert(views(r@) =~= views(before).push(m@[i as int].0@));
        assert(input_keys(m@).take(i + 1) =~= input_keys(m@).take(i as int).push(m@[i as int].0@));
    }
    assert(input_keys(m@).take(n as int) =~= input_keys(m@));
    r
}

/// The package name of each input derivation path.
#[verifier::spinoff_prover]
fn input_names(keys: &Vec<String>) -> (r: Vec<String>)
    ensures
        views(r@) == views(keys@).map_values(|k: Seq<char>| input_name(k)),
{
    let n = keys.len();
    let ghost ks = views(keys@);
    let mut r: Vec<String> = Vec::new();
    for i in 0..n
        invariant
            n == keys@.len(),
            ks == views(keys@),
            views(r@).len() == i,
            forall|j: int| 0 <= j < i ==> #[trigger] views(r@)[j] == input_name(ks[j]),
    {
        let ghost before = r@;
        r.push(extract_input_name(keys[i].as_str()));
        assert(views(r@) =~= views(before).push(input_name(ks[i as int])));
    }
    assert(views(r@) =~= ks.map_values(|k: Seq<char>| input_name(k)));
    r
}

/// Whether the diff ignores the environment variable `k`.
fn is_ignored_env_key(k: &str) -> (r: bool)
    ensures
        r == ignored_env_key(k@),
{
    text_eq(k, "out") || text_eq(k, "outputs") || text_eq(k, "drvPath") || text_eq(k, "builder")
}

/// The keys of an environment that the diff compares.
fn compared_key_list(env: &Vec<(String, String)>) -> (r: Vec<String>)
    ensures
        views(r@) == compared_keys(env@),
{
    let n = env.len();
    let mut r: Vec<String> = Vec::new();
    for i in 0..n
        invariant
            n == env@.len(),
            views(r@) == compared_keys(env@.take(i as int)),
    {
        assert(env@.take(i + 1).drop_last() =~= env@.take(i as int));
        assert(env@.take(i + 1).last() == env@[i as int]);
        if !is_ignored_env_key(env[i].0.as_str()) {
            let ghost before = r@;
            r.push(owned(env[i].0.as_str()));
            assert(views(r@) =~= views(before).push(env@[i as int].0@));
        }
    }
    assert(env@.take(n as int) =~= env@);
    r
}

/// Input derivations whose package is in both groupings with another path.
fn changed_input_list(l: &Vec<(String, String)>, r: &Vec<(String, String)>) -> (res: Vec<InputChange>)
    ensures
        input_change_views(res@) == changed_inputs_spec(crate::assoc::tmap(l@), crate::assoc::tmap(r@)),
{
    let n = l.len();
    let ghost lm = crate::assoc::tmap(l@);
    let mut res: Vec<InputChange> = Vec::new();
    for i in 0..n
        invariant
            n == l@.len(),
            lm == crate::assoc::tmap(l@),
            input_change_views(res@) == changed_inputs_spec(lm.take(i as int), crate::assoc::tmap(r@)),
    {
        assert(lm.take(i + 1).drop_last() =~= lm.take(i as int));
        assert(lm.take(i + 1).last() == (l@[i as int].0@, l@[i as int].1@));
        let (name, ld) = (&l[i].0, &l[i].1);
        match crate::assoc::get_text(r, name.as_str()) {
            Some(rd) => {
                if !text_eq(rd.as_str(), ld.as_str()) {
                    let ghost before = res@;
                    let c = InputChange {
                        name: owned(name.as_str()),
                        old_drv: owned(ld.as_str()),
                        new_drv: owned(rd.as_str()),
                    };
                    res.push(c);
                    assert(input_change_views(res@) =~= input_change_views(before).push(
                        (name@, ld@, rd@),
                    ));
                }
            },
            None => {},
        }
    }
    assert(lm.take(n as int) =~= lm);
    res
}

/// Environment variables in both with a different value.
fn changed_env_list(keys: &Vec<String>, l: &Vec<(String, String)>, r: &Vec<(String, String)>) -> (res: Vec<EnvChange>)
    ensures
        env_change_views(res@) == changed_env_spec(views(keys@), crate::assoc::tmap(l@), crate::assoc::tmap(r@)),
{
    let n = keys.len();
    let mut res: Vec<EnvChange> = Vec::new();
    for i in 0..n
        invariant
            n == keys@.len(),
            env_change_views(res@) == changed_env_spec(
                views(keys@).take(i as int),
                crate::assoc::tmap(l@),
                crate::assoc::tmap(r@),
            ),
    {
        assert(views(keys@).take(i + 1).drop_last() =~= views(keys@).take(i as int));
        assert(views(keys@).take(i + 1).last() == keys@[i as int]@);
        let k = keys[i].as_str();
        match (crate::assoc::get_text(l, k), crate::assoc::get_text(r, k)) {
            (Some(lv), Some(rv)) => {
                if !text_eq(lv.as_str(), rv.as_str()) {
                    let ghost before = res@;
                    let c = EnvChange {
                        key: owned(k),
                        old_value: owned(lv.as_str()),
                        new_value: owned(rv.as_str()),
                    };
                    res.push(c);
                    assert(env_change_views(res@) =~= env_change_views(before).push((k@, lv@, rv@)));
                }
            },
            _ => {},
        }
    }
    assert(views(keys@).take(n as int) =~= views(keys@));
    res
}

/// Compares two derivations: platform, builder, arguments, input
/// derivations (added, removed, and changed by package name), input
/// sources, and environment variables other than `out`, `outputs`,
/// `drvPath` and `builder`.
pub fn compare_derivations(left: &ParsedDerivation, right: &ParsedDerivation) -> (r: DerivationDiff)
    ensures
        is_derivation_diff(r, *left, *right),
{
    let platform_changed = changed_texts(&left.platform, &right.platform);
    let builder_changed = changed_texts(&left.builder, &right.builder);
    let args_changed = !texts_eq(&left.args, &right.args);
    let lk = input_key_list(&left.input_drvs);
    let rk = input_key_list(&right.input_drvs);
    let added_keys = fresh_texts(&lk, &rk);
    let removed_keys = fresh_texts(&rk, &lk);
    let added_inputs = input_names(&added_keys);
    let removed_inputs = input_names(&removed_keys);
    let left_by_name = group_inputs_by_name(&left.input_drvs);
    let right_by_name = group_inputs_by_name(&right.input_drvs);
    let changed_inputs = changed_input_list(&left_by_name, &right_by_name);
    let added_srcs = fresh_texts(&left.input_srcs, &right.input_srcs);
    let removed_srcs = fresh_texts(&right.input_srcs, &left.input_srcs);
    let lek = compared_key_list(&left.env);
    let rek = compared_key_list(&right.env);
    let env_added = fresh_texts(&lek, &rek);
    let env_removed = fresh_texts(&rek, &lek);
    let none: Vec<String> = Vec::new();
    assert(views(none@) =~= Seq::<Seq<char>>::empty());
    let left_keys = fresh_texts(&none, &lek);
    let env_changed = changed_env_list(&left_keys, &left.env, &right.env);
    DerivationDiff {
        platform_changed,
        builder_changed,
        args_changed,
        added_inputs,
        removed_inputs,
        changed_inputs,
        added_srcs,
        removed_srcs,
        env_added,
        env_removed,
        env_changed,
    }
}

// ---------------------------------------------------------------------------
// Reading a derivation

/// The strings among `es`, in order.
pub open spec fn string_elems(es: Seq<JVal>) -> Seq<Seq<char>>
    decreases es.len(),
{
    if es.len() == 0 {
        Seq::empty()
    } else {
        let rest = string_elems(es.drop_last());
        match jstr(es.last()) {
            Some(x) => rest.push(x),
            None => rest,
        }
    }
}

/// The strings of the array `d[k]`; none when it is absent or no array.
pub open spec fn strings_at(d: JVal, k: Seq<char>) -> Seq<Seq<char>> {
    match jget(d, k) {
        Some(x) => match jelems(x) {
            Some(es) => string_elems(es),
            None => Seq::empty(),
        },
        None => Seq::empty(),
    }
}

/// The members of the object `d[k]`; none when it is absent or no object.
pub open spec fn members_at(d: JVal, k: Seq<char>) -> Seq<(Seq<char>, JVal)> {
    match jget(d, k) {
        Some(x) => match jmembers(x) {
            Some(ms) => ms,
            None => Seq::empty(),
        },
        None => Seq::empty(),
    }
}

/// Where the derivation of a `diff` argument comes from.
pub enum DrvSource {
    /// The argument is a derivation in the store.
    Derivation,
    /// The argument is an output in the store: its deriver is asked for.
    StoreOutput,
    /// The argument is an installable.
    Installable,
}

/// Where the derivation of `arg` comes from: a store path ending in `.drv`
/// is one; another store path is an output; anything else an installable.
pub fn drv_source(arg: &str) -> (r: DrvSource)
    ensures
        has_prefix(arg@, "/nix/store/"@) && has_suffix(arg@, ".drv"@) ==> r is Derivation,
        has_prefix(arg@, "/nix/store/"@) && !has_suffix(arg@, ".drv"@) ==> r is StoreOutput,
        !has_prefix(arg@, "/nix/store/"@) ==> r is Installable,
{
    if crate::text::starts_with(arg, "/nix/store/") {
        if crate::text::ends_with(arg, ".drv") {
            DrvSource::Derivation
        } else {
            DrvSource::StoreOutput
        }
    } else {
        DrvSource::Installable
    }
}

/// The `nix-store` query for the deriver of a store output.
pub fn deriver_query_command(output_path: &str) -> (r: crate::command::NixCommand)
    ensures
        r.prog() == "nix-store"@,
        r.argv() == seq!["--query"@, "--deriver"@, output_path@],
{
    let mut cmd = crate::command::NixCommand::new("nix-store");
    cmd.arg("--query");
    cmd.arg("--deriver");
    cmd.arg(output_path);
    assert(cmd.argv() =~= seq!["--query"@, "--deriver"@, output_path@]);
    cmd
}

/// The `nix path-info` query for the derivation of a remote installable.
pub fn path_info_command(arg: &str) -> (r: crate::command::NixCommand)
    ensures
        r.prog() == "nix"@,
        r.argv() == seq!["path-info"@, "--derivation"@, arg@],
{
    let mut cmd = crate::command::NixCommand::new("nix");
    cmd.arg("path-info");
    cmd.arg("--derivation");
    cmd.arg(arg);
    assert(cmd.argv() =~= seq!["path-info"@, "--derivation"@, arg@]);
    cmd
}

/// The `nix eval` of the derivation path of an installable, tried last.
pub fn drv_path_eval_command(arg: &str) -> (r: crate::command::NixCommand)
    ensures
        r.prog() == "nix"@,
        r.argv() == seq!["eval"@, "--raw"@, arg@ + "#.drvPath"@],
{
    let mut cmd = crate::command::NixCommand::new("nix");
    cmd.arg("eval");
    cmd.arg("--raw");
    let a = crate::text::cat(arg, "#.drvPath");
    cmd.arg(a.as_str());
    assert(cmd.argv() =~= seq!["eval"@, "--raw"@, arg@ + "#.drvPath"@]);
    cmd
}

/// Why the deriver of a store output is not known.
pub enum DeriverError {
    /// The store does not know which derivation built the output.
    UnknownDeriver,
}

impl DeriverError {
    /// The error's text, for the store output `output_path`.
    pub fn message(&self, output_path: &str) -> (r: String)
        ensures
            r@ == "Deriver unknown for "@ + output_path@,
    {
        crate::text::cat("Deriver unknown for ", output_path)
    }
}

/// The deriver that `nix-store --query --deriver` printed, without the
/// white space around it; refused when the store does not know it.
pub fn deriver_from_output(stdout: &str) -> (r: Result<String, DeriverError>)
    ensures
        crate::text::trim_seq(stdout@) == "unknown-deriver"@ ==> r matches Err(DeriverError::UnknownDeriver),
        crate::text::trim_seq(stdout@) != "unknown-deriver"@ ==> (r matches Ok(d) && d@ == crate::text::trim_seq(
            stdout@,
        )),
{
    let d = crate::text::trim_text(stdout);
    if text_eq(d.as_str(), "unknown-deriver") {
        Err(DeriverError::UnknownDeriver)
    } else {
        Ok(d)
    }
}

/// The derivation path an evaluation or query printed, without the white
/// space around it.
pub fn printed_drv_path(stdout: &str) -> (r: String)
    ensures
        r@ == crate::text::trim_seq(stdout@),
{
    crate::text::trim_text(stdout)
}

/// The derivation in the output of `nix derivation show`: the value of the
/// first member of the object.
pub open spec fn derivation_entry(j: JVal) -> Option<JVal> {
    match jmembers(j) {
        Some(ms) => if ms.len() > 0 {
            Some(ms[0].1)
        } else {
            None
        },
        None => None,
    }
}

/// `p` holds what the diff reads of the derivation `d`.
pub open spec fn reads_derivation(p: ParsedDerivation, d: JVal) -> bool {
    &&& p.input_drvs@.len() == members_at(d, "inputDrvs"@).len()
    &&& forall|i: int|
        0 <= i < p.input_drvs@.len() ==> {
            &&& (#[trigger] p.input_drvs@[i]).0@ == members_at(d, "inputDrvs"@)[i].0
            &&& views(p.input_drvs@[i].1@) == strings_at(members_at(d, "inputDrvs"@)[i].1, "outputs"@)
        }
    &&& views(p.input_srcs@) == strings_at(d, "inputSrcs"@)
    &&& p.platform@ == jget_str_or(d, "system"@, Seq::empty())
    &&& p.builder@ == jget_str_or(d, "builder"@, Seq::empty())
    &&& views(p.args@) == strings_at(d, "args"@)
    &&& p.env@.len() == members_at(d, "env"@).len()
    &&& forall|i: int|
        0 <= i < p.env@.len() ==> {
            &&& (#[trigger] p.env@[i]).0@ == members_at(d, "env"@)[i].0
            &&& p.env@[i].1@ == match jstr(members_at(d, "env"@)[i].1) {
                Some(x) => x,
                None => Seq::empty(),
            }
        }
}

/// The strings of the array `j[k]`.
fn strings_of(j: &Json, k: &str) -> (r: Vec<String>)
    ensures
        views(r@) == strings_at(j.deep(), k@),
{
    let mut r: Vec<String> = Vec::new();
    match j.get(k) {
        Some(x) => match x.as_array() {
            Some(es) => {
                let ghost ev = elems_deep(es@);
                let n = es.len();
                for i in 0..n
                    invariant
                        n == es@.len(),
                        ev == elems_deep(es@),
                        views(r@) == string_elems(ev.take(i as int)),
                {
                    assert(ev.take(i + 1).drop_last() =~= ev.take(i as int));
                    assert(ev.take(i + 1).last() == es@[i as int].deep());
                    match es[i].as_str() {
                        Some(t) => {
                            let ghost before = r@;
                            r.push(owned(t.as_str()));
                            assert(views(r@) =~= views(before).push(t@));
                        },
                        None => {},
                    }
                }
                assert(ev.take(n as int) =~= ev);
            },
            None => {},
        },
        None => {},
    }
    r
}

/// The members of the object `j[k]`.
fn members_of<'a>(j: &'a Json, k: &str) -> (r: Option<&'a Vec<(String, Json)>>)
    ensures
        match r {
            Some(ms) => members_deep(ms@) == members_at(j.deep(), k@),
            None => members_at(j.deep(), k@) == Seq::<(Seq<char>, JVal)>::empty(),
        },
{
    match j.get(k) {
        Some(x) => x.as_object(),
        None => None,
    }
}

/// Reads what the diff compares out of the output of `nix derivation show`
/// (an object whose first member is the derivation); nothing when that
/// output is not an object with a member.
pub fn parse_derivation(json: &Json) -> (r: Option<ParsedDerivation>)
    ensures
        match derivation_entry(json.deep()) {
            None => r.is_none(),
            Some(d) => r matches Some(p) && reads_derivation(p, d),
        },
{
    let d: &Json = match json.as_object() {
        Some(ms) => {
            if ms.len() == 0 {
                return None;
            }
            assert(members_deep(ms@)[0].1 == ms@[0].1.deep());
            &ms[0].1
        },
        None => {
            return None;
        },
    };
    let ghost dv = d.deep();
    let mut input_drvs: Vec<(String, Vec<String>)> = Vec::new();
    match members_of(d, "inputDrvs") {
        Some(ms) => {
            let n = ms.len();
            for i in 0..n
                invariant
                    n == ms@.len(),
                    members_deep(ms@) == members_at(dv, "inputDrvs"@),
                    input_drvs@.len() == i,
                    forall|q: int|
                        0 <= q < i ==> {
                            &&& (#[trigger] input_drvs@[q]).0@ == members_at(dv, "inputDrvs"@)[q].0
                            &&& views(input_drvs@[q].1@) == strings_at(
                                members_at(dv, "inputDrvs"@)[q].1,
                                "outputs"@,
                            )
                        },
            {
                assert(members_deep(ms@)[i as int] == (ms@[i as int].0@, ms@[i as int].1.deep()));
                let outs = strings_of(&ms[i].1, "outputs");
                input_drvs.push((owned(ms[i].0.as_str()), outs));
            }
        },
        None => {},
    }
    let mut env: Vec<(String, String)> = Vec::new();
    match members_of(d, "env") {
        Some(ms) => {
            let n = ms.len();
            for i in 0..n
                invariant
                    n == ms@.len(),
                    members_deep(ms@) == members_at(dv, "env"@),
                    env@.len() == i,
                    forall|q: int|
                        0 <= q < i ==> {
                            &&& (#[trigger] env@[q]).0@ == members_at(dv, "env"@)[q].0
                            &&& env@[q].1@ == match jstr(members_at(dv, "env"@)[q].1) {
                                Some(x) => x,
                                None => Seq::empty(),
                            }
                        },
            {
                assert(members_deep(ms@)[i as int] == (ms@[i as int].0@, ms@[i as int].1.deep()));
                let v = match ms[i].1.as_str() {
                    Some(t) => owned(t.as_str()),
                    None => String::new(),
                };
                env.push((owned(ms[i].0.as_str()), v));
            }
        },
        None => {},
    }
    let p = ParsedDerivation {
        input_drvs,
        input_srcs: strings_of(d, "inputSrcs"),
        platform: d.get_str_or("system", ""),
        builder: d.get_str_or("builder", ""),
        args: strings_of(d, "args"),
        env,
    };
    assert(""@ =~= Seq::<char>::empty()) by {
        reveal_strlit("");
    }
    Some(p)
}

/// The command that prints a derivation as JSON.
pub fn derivation_show_command(drv_path: &str) -> (r: crate::command::NixCommand)
    ensures
        r.prog() == "nix"@,
        r.argv() == seq!["derivation"@, "show"@, drv_path@],
{
    let mut cmd = crate::command::NixCommand::new("nix");
    cmd.arg("derivation");
    cmd.arg("show");
    cmd.arg(drv_path);
    assert(cmd.argv() =~= seq!["derivation"@, "show"@, drv_path@]);
    cmd
}

// ---------------------------------------------------------------------------
// The generation report

/// The arrow between an old and a new value.
pub open spec fn arrow() -> Seq<char> {
    seq!['\u{2192}']
}

/// The first line of the generation report.
#[verifier::opaque]
pub open spec fn generation_header(c: bool, l: u32, r: u32) -> Seq<char> {
    "Comparing generation "@ + paint_if(c, Paint::Bold, decimal(l as nat)) + " "@ + paint_if(
        c,
        Paint::Dimmed,
        arrow(),
    ) + " "@ + paint_if(c, Paint::Bold, decimal(r as nat))
}

/// `n` and a word, when `n` is not zero.
pub open spec fn count_part(c: bool, p: Paint, n: nat, word: Seq<char>) -> Seq<Seq<char>> {
    if n == 0 {
        Seq::empty()
    } else {
        seq![paint_if(c, p, decimal(n)) + word]
    }
}

/// The summary line: how many packages changed in each way.
#[verifier::opaque]
pub open spec fn summary_line(
    c: bool,
    added: nat,
    removed: nat,
    upgraded: nat,
    downgraded: nat,
    rebuilt: nat,
) -> Seq<char> {
    join_seq(
        count_part(c, Paint::Green, added, " added"@) + count_part(c, Paint::Red, removed, " removed"@)
            + count_part(c, Paint::Cyan, upgraded, " upgraded"@) + count_part(
            c,
            Paint::Yellow,
            downgraded,
            " downgraded"@,
        ) + count_part(c, Paint::Dimmed, rebuilt, " rebuilt"@),
        ", "@,
    )
}

/// A dimmed version after a space, or nothing for an empty version.
pub open spec fn version_suffix(c: bool, v: Seq<char>) -> Seq<char> {
    if v.len() == 0 {
        Seq::empty()
    } else {
        " "@ + paint_if(c, Paint::Dimmed, v)
    }
}

/// The line of one package under a mark.
pub open spec fn package_line(c: bool, mark: Paint, sym: Seq<char>, p: PkgView) -> Seq<char> {
    "  "@ + paint_if(c, mark, sym) + " "@ + p.0 + version_suffix(c, p.1)
}

/// The lines of a section of packages: a title, a line per package, and a
/// blank line when `blank` is set; nothing when there are no packages.
#[verifier::opaque]
pub open spec fn package_section(
    c: bool,
    mark: Paint,
    sym: Seq<char>,
    title: Seq<char>,
    ps: Seq<PkgView>,
    blank: bool,
) -> Seq<Seq<char>> {
    if ps.len() == 0 {
        Seq::empty()
    } else {
        seq![paint_if(c, mark, sym) + " "@ + paint_if(c, Paint::Bold, title)] + ps.map_values(
            |p: PkgView| package_line(c, mark, sym, p),
        ) + if blank {
            seq![Seq::<char>::empty()]
        } else {
            Seq::empty()
        }
    }
}

/// The line of one version change.
pub open spec fn change_line(c: bool, arrow_paint: Paint, new_paint: Paint, u: UpgView) -> Seq<char> {
    "  "@ + u.0 + " "@ + paint_if(c, Paint::Dimmed, u.1) + " "@ + paint_if(c, arrow_paint, arrow())
        + " "@ + paint_if(c, new_paint, u.2)
}

/// The lines of a section of version changes, with a blank line after.
#[verifier::opaque]
pub open spec fn change_section(
    c: bool,
    mark: Paint,
    sym: Seq<char>,
    title: Seq<char>,
    arrow_paint: Paint,
    new_paint: Paint,
    us: Seq<UpgView>,
) -> Seq<Seq<char>> {
    if us.len() == 0 {
        Seq::empty()
    } else {
        seq![paint_if(c, mark, sym) + " "@ + paint_if(c, Paint::Bold, title)] + us.map_values(
            |u: UpgView| change_line(c, arrow_paint, new_paint, u),
        ) + seq![Seq::<char>::empty()]
    }
}

/// The report of what changed between generations `l` and `r`, line by line.
pub open spec fn generation_report(
    c: bool,
    l: u32,
    r: u32,
    added: Seq<PkgView>,
    removed: Seq<PkgView>,
    upgraded: Seq<UpgView>,
    downgraded: Seq<UpgView>,
    rebuilt: Seq<PkgView>,
) -> Seq<Seq<char>> {
    seq![generation_header(c, l, r), Seq::empty()] + if added.len() == 0 && removed.len() == 0
        && upgraded.len() == 0 && downgraded.len() == 0 && rebuilt.len() == 0 {
        seq![paint_if(c, Paint::Dimmed, "No changes"@)]
    } else {
        seq![
            summary_line(
                c,
                added.len(),
                removed.len(),
                upgraded.len(),
                downgraded.len(),
                rebuilt.len(),
            ),
            Seq::empty(),
        ] + package_section(c, Paint::Green, "+"@, "Added:"@, added, true) + package_section(
            c,
            Paint::Red,
            "-"@,
            "Removed:"@,
            removed,
            true,
        ) + change_section(
            c,
            Paint::Cyan,
            seq!['\u{2191}'],
            "Upgraded:"@,
            Paint::Dimmed,
            Paint::Cyan,
            upgraded,
        ) + change_section(
            c,
            Paint::Yellow,
            seq!['\u{2193}'],
            "Downgraded:"@,
            Paint::Yellow,
            Paint::Yellow,
            downgraded,
        ) + package_section(
            c,
            Paint::Dimmed,
            "~"@,
            "Rebuilt (same version, different derivation):"@,
            rebuilt,
            false,
        )
    }
}

/// A text of one character.
fn char_text(ch: char) -> (r: String)
    ensures
        r@ == seq![ch],
{
    let mut r = String::new();
    crate::text::push_char(&mut r, ch);
    assert(r@ =~= seq![ch]);
    r
}

/// Appends `n` and a word when `n` is not zero.
fn push_count(parts: &mut Vec<String>, c: bool, p: Paint, n: usize, word: &str)
    ensures
        views(final(parts)@) == views(old(parts)@) + count_part(c, p, n as nat, word@),
{
    if n > 0 {
        let t = crate::numtext::u64_text(n as u64);
        let mut x = paint(c, p, t.as_str());
        x.append(word);
        parts.push(x);
        assert(views(parts@) =~= views(old(parts)@) + count_part(c, p, n as nat, word@));
    } else {
        assert(views(parts@) =~= views(old(parts)@) + count_part(c, p, n as nat, word@));
    }
}

/// Appends the lines of a section of packages.
fn push_package_section(
    out: &mut Vec<String>,
    c: bool,
    mark: Paint,
    sym: &str,
    title: &str,
    ps: &Vec<PackageInfo>,
    blank: bool,
)
    ensures
        views(final(out)@) == views(old(out)@) + package_section(c, mark, sym@, title@, pkg_views(ps@), blank),
{
    proof { reveal(package_section); }
    let n = ps.len();
    if n == 0 {
        assert(views(out@) =~= views(old(out)@) + package_section(c, mark, sym@, title@, pkg_views(ps@), blank));
        return;
    }
    let mut head = paint(c, mark, sym);
    head.append(" ");
    let t = paint(c, Paint::Bold, title);
    head.append(t.as_str());
    let ghost hv = paint_if(c, mark, sym@) + " "@ + paint_if(c, Paint::Bold, title@);
    assert(head@ =~= hv);
    out.push(head);
    let ghost start = views(out@);
    assert(start =~= views(old(out)@).push(hv));
    let ghost f = |p: PkgView| package_line(c, mark, sym@, p);
    for i in 0..n
        invariant
            n == ps@.len(),
            f == (|p: PkgView| package_line(c, mark, sym@, p)),
            views(out@) == start + pkg_views(ps@).take(i as int).map_values(f),
    {
        let p = &ps[i];
        let mut line = String::from_str("  ");
        let m = paint(c, mark, sym);
        line.append(m.as_str());
        line.append(" ");
        line.append(p.name.as_str());
        if p.version.as_str().unicode_len() > 0 {
            line.append(" ");
            let v = paint(c, Paint::Dimmed, p.version.as_str());
            line.append(v.as_str());
        }
        let ghost pv = (p.name@, p.version@, p.store_path@);
        assert(line@ =~= package_line(c, mark, sym@, pv));
        let ghost before = views(out@);
        out.push(line);
        assert(views(out@) =~= before.push(package_line(c, mark, sym@, pv)));
        assert(pkg_views(ps@)[i as int] == pv);
        assert(pkg_views(ps@).take(i + 1).map_values(f) =~= pkg_views(ps@).take(i as int).map_values(
            f,
        ).push(f(pv)));
    }
    assert(pkg_views(ps@).take(n as int) =~= pkg_views(ps@));
    assert(pkg_views(ps@).map_values(f) =~= pkg_views(ps@).map_values(
        |p: PkgView| package_line(c, mark, sym@, p),
    ));
    let ghost body = views(out@);
    if blank {
        out.push(String::new());
        assert(views(out@) =~= body.push(Seq::<char>::empty()));
    }
    assert(views(out@) =~= views(old(out)@) + package_section(c, mark, sym@, title@, pkg_views(ps@), blank));
}

/// Appends the lines of a section of version changes.
fn push_change_section(
    out: &mut Vec<String>,
    c: bool,
    mark: Paint,
    sym: &str,
    title: &str,
    arrow_paint: Paint,
    new_paint: Paint,
    us: &Vec<PackageUpgrade>,
)
    ensures
        views(final(out)@) == views(old(out)@) + change_section(
            c,
            mark,
            sym@,
            title@,
            arrow_paint,
            new_paint,
            upg_views(us@),
        ),
{
    proof { reveal(change_section); }
    let n = us.len();
    if n == 0 {
        assert(views(out@) =~= views(old(out)@) + change_section(c, mark, sym@, title@, arrow_paint, new_paint, upg_views(us@)));
        return;
    }
    let mut head = paint(c, mark, sym);
    head.append(" ");
    let t = paint(c, Paint::Bold, title);
    head.append(t.as_str());
    let ghost hv = paint_if(c, mark, sym@) + " "@ + paint_if(c, Paint::Bold, title@);
    assert(head@ =~= hv);
    out.push(head);
    let ghost start = views(out@);
    assert(start =~= views(old(out)@).push(hv));
    let ghost f = |u: UpgView| change_line(c, arrow_paint, new_paint, u);
    let arrow_text = char_text('\u{2192}');
    for i in 0..n
        invariant
            n == us@.len(),
            arrow_text@ == arrow(),
            f == (|u: UpgView| change_line(c, arrow_paint, new_paint, u)),
            views(out@) == start + upg_views(us@).take(i as int).map_values(f),
    {
        let u = &us[i];
        let mut line = String::from_str("  ");
        line.append(u.name.as_str());
        line.append(" ");
        let o = paint(c, Paint::Dimmed, u.old_version.as_str());
        line.append(o.as_str());
        line.append(" ");
        let a = paint(c, arrow_paint, arrow_text.as_str());
        line.append(a.as_str());
        line.append(" ");
        let nv = paint(c, new_paint, u.new_version.as_str());
        line.append(nv.as_str());
        let ghost uv = (u.name@, u.old_version@, u.new_version@, u.old_path@, u.new_path@);
        assert(line@ =~= change_line(c, arrow_paint, new_paint, uv));
        let ghost before = views(out@);
        out.push(line);
        assert(views(out@) =~= before.push(change_line(c, arrow_paint, new_paint, uv)));
        assert(upg_views(us@)[i as int] == uv);
        assert(upg_views(us@).take(i + 1).map_values(f) =~= upg_views(us@).take(i as int).map_values(
            f,
        ).push(f(uv)));
    }
    assert(upg_views(us@).take(n as int) =~= upg_views(us@));
    assert(upg_views(us@).map_values(f) =~= upg_views(us@).map_values(
        |u: UpgView| change_line(c, arrow_paint, new_paint, u),
    ));
    let ghost body = views(out@);
    out.push(String::new());
    assert(views(out@) =~= body.push(Seq::<char>::empty()));
    assert(views(out@) =~= views(old(out)@) + change_section(c, mark, sym@, title@, arrow_paint, new_paint, upg_views(us@)));
}

/// The first line of the generation report.
fn generation_header_text(c: bool, left_gen: u32, right_gen: u32) -> (r: String)
    ensures
        r@ == generation_header(c, left_gen, right_gen),
{
    proof { reveal(generation_header); }
    let mut head = String::from_str("Comparing generation ");
    let lt = crate::numtext::u64_text(left_gen as u64);
    let a = paint(c, Paint::Bold, lt.as_str());
    head.append(a.as_str());
    head.append(" ");
    let arrow_text = char_text('\u{2192}');
    let b = paint(c, Paint::Dimmed, arrow_text.as_str());
    head.append(b.as_str());
    head.append(" ");
    let rt = crate::numtext::u64_text(right_gen as u64);
    let d = paint(c, Paint::Bold, rt.as_str());
    head.append(d.as_str());
    assert(head@ =~= generation_header(c, left_gen, right_gen));
    head
}

/// The summary line of the generation report.
fn summary_text(c: bool, diff: &GenerationDiff) -> (r: String)
    ensures
        r@ == summary_line(
            c,
            diff.added@.len(),
            diff.removed@.len(),
            diff.upgraded@.len(),
            diff.downgraded@.len(),
            diff.rebuilt@.len(),
        ),
{
    proof { reveal(summary_line); }
    let mut parts: Vec<String> = Vec::new();
    assert(views(parts@) =~= Seq::<Seq<char>>::empty());
    push_count(&mut parts, c, Paint::Green, diff.added.len(), " added");
    push_count(&mut parts, c, Paint::Red, diff.removed.len(), " removed");
    push_count(&mut parts, c, Paint::Cyan, diff.upgraded.len(), " upgraded");
    push_count(&mut parts, c, Paint::Yellow, diff.downgraded.len(), " downgraded");
    push_count(&mut parts, c, Paint::Dimmed, diff.rebuilt.len(), " rebuilt");
    crate::text::join_strings(&parts, ", ")
}

/// The sections of the generation report after the summary.
fn push_sections(out: &mut Vec<String>, c: bool, diff: &GenerationDiff)
    ensures
        views(final(out)@) == views(old(out)@) + package_section(c, Paint::Green, "+"@, "Added:"@, pkg_views(diff.added@), true)
            + package_section(c, Paint::Red, "-"@, "Removed:"@, pkg_views(diff.removed@), true)
            + change_section(c, Paint::Cyan, seq!['\u{2191}'], "Upgraded:"@, Paint::Dimmed, Paint::Cyan, upg_views(diff.upgraded@))
            + change_section(c, Paint::Yellow, seq!['\u{2193}'], "Downgraded:"@, Paint::Yellow, Paint::Yellow, upg_views(diff.downgraded@))
            + package_section(c, Paint::Dimmed, "~"@, "Rebuilt (same version, different derivation):"@, pkg_views(diff.rebuilt@), false),
{
    let ghost o0 = views(out@);
    push_package_section(out, c, Paint::Green, "+", "Added:", &diff.added, true);
    let ghost o1 = views(out@);
    push_package_section(out, c, Paint::Red, "-", "Removed:", &diff.removed, true);
    let ghost o2 = views(out@);
    let up = char_text('\u{2191}');
    push_change_section(out, c, Paint::Cyan, up.as_str(), "Upgraded:", Paint::Dimmed, Paint::Cyan, &diff.upgraded);
    let ghost o3 = views(out@);
    let down = char_text('\u{2193}');
    push_change_section(out, c, Paint::Yellow, down.as_str(), "Downgraded:", Paint::Yellow, Paint::Yellow, &diff.downgraded);
    let ghost o4 = views(out@);
    push_package_section(
        out,
        c,
        Paint::Dimmed,
        "~",
        "Rebuilt (same version, different derivation):",
        &diff.rebuilt,
        false,
    );
    assert(views(out@) =~= o0 + (o1.skip(o0.len() as int)) + (o2.skip(o1.len() as int)) + (o3.skip(o2.len() as int)) + (o4.skip(o3.len() as int)) + views(out@).skip(o4.len() as int));
}

/// The report of what changed between generations `left_gen` and
/// `right_gen`, line by line (an empty text stands for a blank line).
pub fn generation_diff_lines(color: bool, left_gen: u32, right_gen: u32, diff: &GenerationDiff) -> (r: Vec<String>)
    ensures
        views(r@) == generation_report(
            color,
            left_gen,
            right_gen,
            pkg_views(diff.added@),
            pkg_views(diff.removed@),
            upg_views(diff.upgraded@),
            upg_views(diff.downgraded@),
            pkg_views(diff.rebuilt@),
        ),
{
    let c = color;
    let mut out: Vec<String> = Vec::new();
    out.push(generation_header_text(c, left_gen, right_gen));
    out.push(String::new());
    let ghost top = views(out@);
    assert(top =~= seq![generation_header(c, left_gen, right_gen), Seq::<char>::empty()]);
    assert(pkg_views(diff.added@).len() == diff.added@.len());
    assert(pkg_views(diff.removed@).len() == diff.removed@.len());
    assert(upg_views(diff.upgraded@).len() == diff.upgraded@.len());
    assert(upg_views(diff.downgraded@).len() == diff.downgraded@.len());
    assert(pkg_views(diff.rebuilt@).len() == diff.rebuilt@.len());
    if diff.added.len() == 0 && diff.removed.len() == 0 && diff.upgraded.len() == 0
        && diff.downgraded.len() == 0 && diff.rebuilt.len() == 0 {
        let nc = paint(c, Paint::Dimmed, "No changes");
        out.push(nc);
        assert(views(out@) =~= top + seq![paint_if(c, Paint::Dimmed, "No changes"@)]);
        return out;
    }
    out.push(summary_text(c, diff));
    out.push(String::new());
    let ghost mid = views(out@);
    push_sections(&mut out, c, diff);
    assert(mid =~= top + seq![summary_line(c, diff.added@.len(), diff.removed@.len(), diff.upgraded@.len(), diff.downgraded@.len(), diff.rebuilt@.len()), Seq::<char>::empty()]);
    out
}

// ---------------------------------------------------------------------------
// The derivation report

/// A line `  MARK text`.
pub open spec fn marked_line(c: bool, mark: Paint, sym: Seq<char>, t: Seq<char>) -> Seq<char> {
    "  "@ + paint_if(c, mark, sym) + " "@ + t
}

/// The lines `  MARK text` for each text.
pub open spec fn marked_lines(c: bool, mark: Paint, sym: Seq<char>, ts: Seq<Seq<char>>) -> Seq<Seq<char>> {
    ts.map_values(|t: Seq<char>| marked_line(c, mark, sym, t))
}

/// A line `Label: old → new`.
pub open spec fn field_change_line(c: bool, label: Seq<char>, old: Seq<char>, new: Seq<char>) -> Seq<char> {
    paint_if(c, Paint::Bold, label) + " "@ + paint_if(c, Paint::Red, old) + " "@ + paint_if(
        c,
        Paint::Dimmed,
        arrow(),
    ) + " "@ + paint_if(c, Paint::Green, new)
}

/// The line of a changed input derivation.
pub open spec fn input_change_line(c: bool, ch: (Seq<char>, Seq<char>, Seq<char>)) -> Seq<char> {
    "  "@ + paint_if(c, Paint::Yellow, "~"@) + " "@ + ch.0 + " "@ + paint_if(
        c,
        Paint::Dimmed,
        input_name(ch.1),
    ) + " "@ + paint_if(c, Paint::Yellow, arrow() + " "@ + input_name(ch.2))
}

/// The section on input derivations.
#[verifier::opaque]
pub open spec fn inputs_section(
    c: bool,
    added: Seq<Seq<char>>,
    removed: Seq<Seq<char>>,
    changed: Seq<(Seq<char>, Seq<char>, Seq<char>)>,
) -> Seq<Seq<char>> {
    if added.len() == 0 && removed.len() == 0 && changed.len() == 0 {
        Seq::empty()
    } else {
        seq![Seq::empty(), paint_if(c, Paint::Bold, "Input derivations:"@)] + marked_lines(
            c,
            Paint::Green,
            "+"@,
            added,
        ) + marked_lines(c, Paint::Red, "-"@, removed) + changed.map_values(
            |ch: (Seq<char>, Seq<char>, Seq<char>)| input_change_line(c, ch),
        )
    }
}

/// The section on input sources.
#[verifier::opaque]
pub open spec fn sources_section(c: bool, added: Seq<Seq<char>>, removed: Seq<Seq<char>>) -> Seq<Seq<char>> {
    if added.len() == 0 && removed.len() == 0 {
        Seq::empty()
    } else {
        seq![Seq::empty(), paint_if(c, Paint::Bold, "Input sources:"@)] + marked_lines(
            c,
            Paint::Green,
            "+"@,
            added,
        ) + marked_lines(c, Paint::Red, "-"@, removed)
    }
}

/// The section on environment variables: their count, the first five, and
/// how many more there are.
#[verifier::opaque]
pub open spec fn env_section(
    c: bool,
    added: Seq<Seq<char>>,
    removed: Seq<Seq<char>>,
    changed: Seq<Seq<char>>,
) -> Seq<Seq<char>> {
    let total = added.len() + removed.len() + changed.len();
    let all = marked_lines(c, Paint::Green, "+"@, added) + marked_lines(c, Paint::Red, "-"@, removed)
        + marked_lines(c, Paint::Yellow, "~"@, changed);
    if total == 0 {
        Seq::empty()
    } else {
        seq![
            Seq::empty(),
            paint_if(
                c,
                Paint::Bold,
                "Environment variables ("@ + decimal(total) + " changes):"@,
            ),
        ] + all.take(if total < 5 {
            total as int
        } else {
            5
        }) + if total > 5 {
            seq!["  "@ + paint_if(c, Paint::Dimmed, "... and "@ + decimal((total - 5) as nat) + " more"@)]
        } else {
            Seq::empty()
        }
    }
}

/// The diff shows some change.
pub open spec fn has_derivation_changes(d: DerivationDiff) -> bool {
    d.platform_changed.is_some() || d.builder_changed.is_some() || d.args_changed
        || d.added_inputs@.len() > 0 || d.removed_inputs@.len() > 0 || d.changed_inputs@.len() > 0
        || d.added_srcs@.len() > 0 || d.removed_srcs@.len() > 0 || d.env_added@.len() > 0
        || d.env_removed@.len() > 0 || d.env_changed@.len() > 0
}

/// The keys of the changed environment variables.
pub open spec fn env_change_keys(v: Seq<EnvChange>) -> Seq<Seq<char>> {
    v.map_values(|ch: EnvChange| ch.key@)
}

/// The lines of a report on derivations that differ.
#[verifier::opaque]
pub open spec fn derivation_changes(c: bool, d: DerivationDiff) -> Seq<Seq<char>> {
    (match opt_pair_view(d.platform_changed) {
        Some((o, n)) => seq![field_change_line(c, "Platform:"@, o, n)],
        None => Seq::empty(),
    }) + (match opt_pair_view(d.builder_changed) {
        Some((o, n)) => seq![field_change_line(c, "Builder:"@, o, n)],
        None => Seq::empty(),
    }) + (if d.args_changed {
        seq![paint_if(c, Paint::Yellow, "Builder arguments changed"@)]
    } else {
        Seq::empty()
    }) + inputs_section(
        c,
        views(d.added_inputs@),
        views(d.removed_inputs@),
        input_change_views(d.changed_inputs@),
    ) + sources_section(c, views(d.added_srcs@), views(d.removed_srcs@)) + env_section(
        c,
        views(d.env_added@),
        views(d.env_removed@),
        env_change_keys(d.env_changed@),
    )
}

/// The report of the differences between two derivations, line by line.
pub open spec fn derivation_report(c: bool, l: Seq<char>, r: Seq<char>, d: DerivationDiff) -> Seq<Seq<char>> {
    let head = "Comparing "@ + paint_if(c, Paint::Bold, l) + " "@ + paint_if(c, Paint::Dimmed, arrow())
        + " "@ + paint_if(c, Paint::Bold, r);
    seq![head, Seq::empty()] + if !has_derivation_changes(d) {
        seq![paint_if(c, Paint::Dimmed, "No significant differences"@)]
    } else {
        derivation_changes(c, d)
    }
}

/// Appends a line `  MARK text` for each text.
fn push_marked(out: &mut Vec<String>, c: bool, mark: Paint, sym: &str, ts: &Vec<String>)
    ensures
        views(final(out)@) == views(old(out)@) + marked_lines(c, mark, sym@, views(ts@)),
{
    let n = ts.len();
    let ghost start = views(out@);
    for i in 0..n
        invariant
            n == ts@.len(),
            views(out@).len() == start.len() + i,
            forall|j: int| 0 <= j < start.len() ==> #[trigger] views(out@)[j] == start[j],
            forall|j: int|
                0 <= j < i ==> #[trigger] views(out@)[start.len() + j] == marked_line(
                    c,
                    mark,
                    sym@,
                    ts@[j]@,
                ),
    {
        let mut line = String::from_str("  ");
        let m = paint(c, mark, sym);
        line.append(m.as_str());
        line.append(" ");
        line.append(ts[i].as_str());
        assert(line@ =~= marked_line(c, mark, sym@, ts@[i as int]@));
        let ghost before = views(out@);
        out.push(line);
        assert(views(out@) =~= before.push(line@));
    }
    let ghost want = start + marked_lines(c, mark, sym@, views(ts@));
    assert forall|j: int| 0 <= j < want.len() implies #[trigger] views(out@)[j] == want[j] by {
        if j >= start.len() {
            let k = j - start.len();
            assert(views(out@)[start.len() + k] == marked_line(c, mark, sym@, ts@[k]@));
            assert(views(ts@)[k] == ts@[k]@);
        }
    }
    assert(views(out@) =~= want);
}

/// A line `Label: old → new`.
fn field_change_text(c: bool, label: &str, old: &String, new: &String) -> (r: String)
    ensures
        r@ == field_change_line(c, label@, old@, new@),
{
    let mut line = paint(c, Paint::Bold, label);
    line.append(" ");
    let o = paint(c, Paint::Red, old.as_str());
    line.append(o.as_str());
    line.append(" ");
    let arrow_text = char_text('\u{2192}');
    let a = paint(c, Paint::Dimmed, arrow_text.as_str());
    line.append(a.as_str());
    line.append(" ");
    let n = paint(c, Paint::Green, new.as_str());
    line.append(n.as_str());
    assert(line@ =~= field_change_line(c, label@, old@, new@));
    line
}

/// Appends the section on input derivations.
fn push_inputs_section(out: &mut Vec<String>, c: bool, d: &DerivationDiff)
    ensures
        views(final(out)@) == views(old(out)@) + inputs_section(
            c,
            views(d.added_inputs@),
            views(d.removed_inputs@),
            input_change_views(d.changed_inputs@),
        ),
{
    proof { reveal(inputs_section); }
    if d.added_inputs.len() == 0 && d.removed_inputs.len() == 0 && d.changed_inputs.len() == 0 {
        assert(views(out@) =~= views(old(out)@) + Seq::<Seq<char>>::empty());
        return;
    }
    out.push(String::new());
    out.push(paint(c, Paint::Bold, "Input derivations:"));
    let ghost o1 = views(out@);
    push_marked(out, c, Paint::Green, "+", &d.added_inputs);
    let ghost o2 = views(out@);
    push_marked(out, c, Paint::Red, "-", &d.removed_inputs);
    let ghost o3 = views(out@);
    let n = d.changed_inputs.len();
    let ghost chv = input_change_views(d.changed_inputs@);
    let arrow_text = char_text('\u{2192}');
    for i in 0..n
        invariant
            n == d.changed_inputs@.len(),
            chv == input_change_views(d.changed_inputs@),
            arrow_text@ == arrow(),
            views(out@).len() == o3.len() + i,
            forall|j: int| 0 <= j < o3.len() ==> #[trigger] views(out@)[j] == o3[j],
            forall|j: int|
                0 <= j < i ==> #[trigger] views(out@)[o3.len() + j] == input_change_line(c, chv[j]),
    {
        let ch = &d.changed_inputs[i];
        let old_ver = extract_input_name(ch.old_drv.as_str());
        let new_ver = extract_input_name(ch.new_drv.as_str());
        let mut line = String::from_str("  ");
        let m = paint(c, Paint::Yellow, "~");
        line.append(m.as_str());
        line.append(" ");
        line.append(ch.name.as_str());
        line.append(" ");
        let o = paint(c, Paint::Dimmed, old_ver.as_str());
        line.append(o.as_str());
        line.append(" ");
        let mut tail = crate::text::owned(arrow_text.as_str());
        tail.append(" ");
        tail.append(new_ver.as_str());
        let t = paint(c, Paint::Yellow, tail.as_str());
        line.append(t.as_str());
        assert(chv[i as int] == (ch.name@, ch.old_drv@, ch.new_drv@));
        assert(line@ =~= input_change_line(c, chv[i as int]));
        let ghost before = views(out@);
        out.push(line);
        assert(views(out@) =~= before.push(line@));
    }
    let ghost tail_lines = chv.map_values(|ch: (Seq<char>, Seq<char>, Seq<char>)| input_change_line(c, ch));
    assert forall|j: int| 0 <= j < (o3 + tail_lines).len() implies #[trigger] views(out@)[j] == (o3
        + tail_lines)[j] by {
        if j >= o3.len() {
            let k = j - o3.len();
            assert(views(out@)[o3.len() + k] == input_change_line(c, chv[k]));
        }
    }
    assert(views(out@) =~= o3 + tail_lines);
    assert(views(out@) =~= views(old(out)@) + inputs_section(
        c,
        views(d.added_inputs@),
        views(d.removed_inputs@),
        input_change_views(d.changed_inputs@),
    ));
}

/// Appends the section on input sources.
fn push_sources_section(out: &mut Vec<String>, c: bool, d: &DerivationDiff)
    ensures
        views(final(out)@) == views(old(out)@) + sources_section(c, views(d.added_srcs@), views(d.removed_srcs@)),
{
    proof { reveal(sources_section); }
    if d.added_srcs.len() == 0 && d.removed_srcs.len() == 0 {
        assert(views(out@) =~= views(old(out)@) + Seq::<Seq<char>>::empty());
        return;
    }
    out.push(String::new());
    out.push(paint(c, Paint::Bold, "Input sources:"));
    push_marked(out, c, Paint::Green, "+", &d.added_srcs);
    push_marked(out, c, Paint::Red, "-", &d.removed_srcs);
}

/// The keys of the changed environment variables.
fn env_change_key_list(v: &Vec<EnvChange>) -> (r: Vec<String>)
    ensures
        views(r@) == env_change_keys(v@),
{
    let n = v.len();
    let mut r: Vec<String> = Vec::new();
    for i in 0..n
        invariant
            n == v@.len(),
            views(r@) == env_change_keys(v@).take(i as int),
    {
        let ghost before = views(r@);
        r.push(owned(v[i].key.as_str()));
        assert(views(r@) =~= before.push(v@[i as int].key@));
        assert(env_change_keys(v@).take(i + 1) =~= env_change_keys(v@).take(i as int).push(v@[i as int].key@));
    }
    assert(env_change_keys(v@).take(n as int) =~= env_change_keys(v@));
    r
}

/// Appends the section on environment variables.
fn push_env_section(out: &mut Vec<String>, c: bool, d: &DerivationDiff)
    requires
        d.env_added@.len() + d.env_removed@.len() + d.env_changed@.len() <= usize::MAX,
    ensures
        views(final(out)@) == views(old(out)@) + env_section(
            c,
            views(d.env_added@),
            views(d.env_removed@),
            env_change_keys(d.env_changed@),
        ),
{
    proof { reveal(env_section); }
    let total = d.env_added.len() + d.env_removed.len() + d.env_changed.len();
    let keys = env_change_key_list(&d.env_changed);
    let ghost added = views(d.env_added@);
    let ghost removed = views(d.env_removed@);
    let ghost changed = env_change_keys(d.env_changed@);
    assert(total == added.len() + removed.len() + changed.len());
    if total == 0 {
        assert(views(out@) =~= views(old(out)@) + Seq::<Seq<char>>::empty());
        return;
    }
    out.push(String::new());
    let mut title = String::from_str("Environment variables (");
    let tt = crate::numtext::u64_text(total as u64);
    title.append(tt.as_str());
    title.append(" changes):");
    out.push(paint(c, Paint::Bold, title.as_str()));
    let ghost o1 = views(out@);
    let mut all: Vec<String> = Vec::new();
    push_marked(&mut all, c, Paint::Green, "+", &d.env_added);
    push_marked(&mut all, c, Paint::Red, "-", &d.env_removed);
    push_marked(&mut all, c, Paint::Yellow, "~", &keys);
    let ghost allv = views(all@);
    assert(allv =~= marked_lines(c, Paint::Green, "+"@, added) + marked_lines(c, Paint::Red, "-"@, removed)
        + marked_lines(c, Paint::Yellow, "~"@, changed));
    let shown: usize = if total < 5 {
        total
    } else {
        5
    };
    for i in 0..shown
        invariant
            shown <= all@.len(),
            allv == views(all@),
            views(out@) == o1 + allv.take(i as int),
    {
        let ghost before = views(out@);
        out.push(owned(all[i].as_str()));
        assert(views(out@) =~= before.push(allv[i as int]));
        assert(allv.take(i + 1) =~= allv.take(i as int).push(allv[i as int]));
    }
    let ghost o2 = views(out@);
    if total > 5 {
        let mut more = String::from_str("... and ");
        let mt = crate::numtext::u64_text((total - 5) as u64);
        more.append(mt.as_str());
        more.append(" more");
        let p = paint(c, Paint::Dimmed, more.as_str());
        let mut line = String::from_str("  ");
        line.append(p.as_str());
        out.push(line);
        assert(views(out@) =~= o2 + seq![line@]);
    } else {
        assert(views(out@) =~= o2 + Seq::<Seq<char>>::empty());
    }
}

/// Appends the lines of a report on derivations that differ.
#[verifier::spinoff_prover]
fn push_changes(out: &mut Vec<String>, c: bool, d: &DerivationDiff)
    requires
        d.env_added@.len() + d.env_removed@.len() + d.env_changed@.len() <= usize::MAX,
    ensures
        views(final(out)@) == views(old(out)@) + derivation_changes(c, *d),
{
    proof { reveal(derivation_changes); }
    let ghost o0 = views(out@);
    let ghost p1: Seq<Seq<char>> = match opt_pair_view(d.platform_changed) {
        Some((o, n)) => seq![field_change_line(c, "Platform:"@, o, n)],
        None => Seq::empty(),
    };
    let ghost p2: Seq<Seq<char>> = match opt_pair_view(d.builder_changed) {
        Some((o, n)) => seq![field_change_line(c, "Builder:"@, o, n)],
        None => Seq::empty(),
    };
    let ghost p3: Seq<Seq<char>> = if d.args_changed {
        seq![paint_if(c, Paint::Yellow, "Builder arguments changed"@)]
    } else {
        Seq::empty()
    };
    match &d.platform_changed {
        Some((o, n)) => {
            out.push(field_change_text(c, "Platform:", o, n));
        },
        None => {},
    }
    assert(views(out@) =~= o0 + p1);
    match &d.builder_changed {
        Some((o, n)) => {
            let ghost before = views(out@);
            out.push(field_change_text(c, "Builder:", o, n));
            assert(views(out@) =~= before + p2);
        },
        None => {},
    }
    assert(views(out@) =~= o0 + p1 + p2);
    if d.args_changed {
        let ghost before = views(out@);
        out.push(paint(c, Paint::Yellow, "Builder arguments changed"));
        assert(views(out@) =~= before + p3);
    }
    let ghost o3 = views(out@);
    assert(o3 =~= o0 + p1 + p2 + p3);
    push_inputs_section(out, c, d);
    push_sources_section(out, c, d);
    push_env_section(out, c, d);
    assert(views(out@) =~= o0 + derivation_changes(c, *d));
}

/// The report of the differences between the derivations named `left_name`
/// and `right_name`, line by line (an empty text stands for a blank line).
pub fn derivation_diff_lines(color: bool, left_name: &str, right_name: &str, diff: &DerivationDiff) -> (r: Vec<String>)
    requires
        diff.env_added@.len() + diff.env_removed@.len() + diff.env_changed@.len() <= usize::MAX,
    ensures
        views(r@) == derivation_report(color, left_name@, right_name@, *diff),
{
    let c = color;
    let d = diff;
    let mut out: Vec<String> = Vec::new();
    let mut head = String::from_str("Comparing ");
    let a = paint(c, Paint::Bold, left_name);
    head.append(a.as_str());
    head.append(" ");
    let arrow_text = char_text('\u{2192}');
    let b = paint(c, Paint::Dimmed, arrow_text.as_str());
    head.append(b.as_str());
    head.append(" ");
    let e = paint(c, Paint::Bold, right_name);
    head.append(e.as_str());
    let ghost hv = head@;
    out.push(head);
    out.push(String::new());
    let ghost top = views(out@);
    assert(top =~= seq![hv, Seq::<char>::empty()]);
    let has_changes = d.platform_changed.is_some() || d.builder_changed.is_some() || d.args_changed
        || d.added_inputs.len() > 0 || d.removed_inputs.len() > 0 || d.changed_inputs.len() > 0
        || d.added_srcs.len() > 0 || d.removed_srcs.len() > 0 || d.env_added.len() > 0
        || d.env_removed.len() > 0 || d.env_changed.len() > 0;
    if !has_changes {
        out.push(paint(c, Paint::Dimmed, "No significant differences"));
        return out;
    }
    let ghost top2 = views(out@);
    push_changes(&mut out, c, d);
    out
}

proof fn lemma_fresh_distinct_contains(have: Seq<Seq<char>>, xs: Seq<Seq<char>>, x: Seq<char>)
    ensures
        fresh_distinct(have, xs).contains(x) <==> (xs.contains(x) && !have.contains(x)),
    decreases xs.len(),
{
    if xs.len() > 0 {
        let pre = xs.drop_last();
        lemma_fresh_distinct_contains(have, pre, x);
        let rest = fresh_distinct(have, pre);
        let y = xs.last();
        assert(xs =~= pre.push(y));
        if xs.contains(x) && !pre.contains(x) {
            let j = choose|j: int| 0 <= j < xs.len() && xs[j] == x;
            if j < pre.len() {
                assert(pre[j] == x);
            }
        }
        if pre.contains(x) {
            let j = choose|j: int| 0 <= j < pre.len() && pre[j] == x;
            assert(xs[j] == x);
        }
        if !(have.contains(y) || rest.contains(y)) {
            assert(rest.push(y)[rest.len() as int] == y);
            if rest.push(y).contains(x) && x != y {
                let j = choose|j: int| 0 <= j < rest.push(y).len() && rest.push(y)[j] == x;
                assert(rest[j] == x);
            }
            if rest.contains(x) {
                let j = choose|j: int| 0 <= j < rest.len() && rest[j] == x;
                assert(rest.push(y)[j] == x);
            }
        }
    }
}

proof fn lemma_compared_keys_contains(env: Seq<(String, String)>, k: Seq<char>)
    ensures
        compared_keys(env).contains(k) <==> (!ignored_env_key(k) && crate::assoc::keys_of(env).contains(k)),
    decreases env.len(),
{
    if env.len() == 0 {
        assert(crate::assoc::keys_of(env) =~= Seq::<Seq<char>>::empty());
        assert(compared_keys(env) =~= Seq::<Seq<char>>::empty());
    } else {
        let pre = env.drop_last();
        lemma_compared_keys_contains(pre, k);
        let rest = compared_keys(pre);
        let y = env.last().0@;
        let ks = crate::assoc::keys_of(env);
        assert(ks =~= crate::assoc::keys_of(pre).push(y));
        assert(ks[ks.len() - 1] == y);
        if ignored_env_key(y) {
            assert(compared_keys(env) == rest);
        } else {
            assert(compared_keys(env) == rest.push(y));
        }
        if ks.contains(k) && !crate::assoc::keys_of(pre).contains(k) {
            let j = choose|j: int| 0 <= j < ks.len() && ks[j] == k;
            if j < pre.len() {
                assert(crate::assoc::keys_of(pre)[j] == k);
            }
        }
        if crate::assoc::keys_of(pre).contains(k) {
            let j = choose|j: int| 0 <= j < pre.len() && crate::assoc::keys_of(pre)[j] == k;
            assert(ks[j] == k);
        }
        if !ignored_env_key(y) {
            assert(rest.push(y)[rest.len() as int] == y);
            if rest.push(y).contains(k) && k != y {
                let j = choose|j: int| 0 <= j < rest.push(y).len() && rest.push(y)[j] == k;
                assert(rest[j] == k);
            }
            if rest.contains(k) {
                let j = choose|j: int| 0 <= j < rest.len() && rest[j] == k;
                assert(rest.push(y)[j] == k);
            }
        }
    }
}

proof fn lemma_tget_some(env: Seq<(String, String)>, k: Seq<char>)
    ensures
        crate::assoc::tget(crate::assoc::tmap(env), k) is Some <==> crate::assoc::keys_of(env).contains(k),
{
    assert(crate::assoc::tkeys(crate::assoc::tmap(env)) =~= crate::assoc::keys_of(env));
    crate::assoc::lemma_key_index(crate::assoc::keys_of(env), k);
}

proof fn lemma_changed_env_members(
    keys: Seq<Seq<char>>,
    l: Seq<(Seq<char>, Seq<char>)>,
    r: Seq<(Seq<char>, Seq<char>)>,
)
    ensures
        forall|i: int|
            0 <= i < changed_env_spec(keys, l, r).len() ==> {
                let e = #[trigger] changed_env_spec(keys, l, r)[i];
                &&& keys.contains(e.0)
                &&& crate::assoc::tget(l, e.0) == Some(e.1)
                &&& crate::assoc::tget(r, e.0) == Some(e.2)
                &&& e.1 != e.2
            },
        forall|k: Seq<char>|
            keys.contains(k) && crate::assoc::tget(l, k) is Some && crate::assoc::tget(r, k) is Some
                && crate::assoc::tget(l, k) != crate::assoc::tget(r, k) ==> exists|i: int|
                0 <= i < changed_env_spec(keys, l, r).len() && (#[trigger] changed_env_spec(keys, l, r)[i]).0 == k,
    decreases keys.len(),
{
    if keys.len() > 0 {
        let pre = keys.drop_last();
        lemma_changed_env_members(pre, l, r);
        let rest = changed_env_spec(pre, l, r);
        let res = changed_env_spec(keys, l, r);
        let k = keys.last();
        assert forall|i: int| 0 <= i < res.len() implies {
            let e = #[trigger] res[i];
            &&& keys.contains(e.0)
            &&& crate::assoc::tget(l, e.0) == Some(e.1)
            &&& crate::assoc::tget(r, e.0) == Some(e.2)
            &&& e.1 != e.2
        } by {
            if i < rest.len() {
                assert(res[i] == rest[i]);
                let e = rest[i];
                let j = choose|j: int| 0 <= j < pre.len() && pre[j] == e.0;
                assert(keys[j] == e.0);
            } else {
                assert(keys[keys.len() - 1] == k);
            }
        }
        assert forall|x: Seq<char>|
            keys.contains(x) && crate::assoc::tget(l, x) is Some && crate::assoc::tget(r, x) is Some
                && crate::assoc::tget(l, x) != crate::assoc::tget(r, x) implies exists|i: int|
                0 <= i < res.len() && (#[trigger] res[i]).0 == x by {
            let j = choose|j: int| 0 <= j < keys.len() && keys[j] == x;
            if j < pre.len() {
                assert(pre[j] == x);
                let i = choose|i: int| 0 <= i < rest.len() && (#[trigger] rest[i]).0 == x;
                assert(res[i] == rest[i]);
            } else {
                assert(x == k);
                assert(res[rest.len() as int].0 == x);
            }
        }
    }
}

/// The environment changes of a derivation diff are exactly the variables
/// set in both derivations, other than `out`, `outputs`, `drvPath` and
/// `builder`, whose values differ: each with its value on the left and on
/// the right.
pub proof fn env_changes_are_the_differing_variables(d: DerivationDiff, l: ParsedDerivation, r: ParsedDerivation)
    requires
        is_derivation_diff(d, l, r),
    ensures
        forall|i: int|
            0 <= i < d.env_changed@.len() ==> {
                let c = #[trigger] d.env_changed@[i];
                &&& c.key@ != "out"@ && c.key@ != "outputs"@ && c.key@ != "drvPath"@ && c.key@ != "builder"@
                &&& crate::assoc::tget(crate::assoc::tmap(l.env@), c.key@) == Some(c.old_value@)
                &&& crate::assoc::tget(crate::assoc::tmap(r.env@), c.key@) == Some(c.new_value@)
                &&& c.old_value@ != c.new_value@
            },
        forall|k: Seq<char>|
            k != "out"@ && k != "outputs"@ && k != "drvPath"@ && k != "builder"@ && (
            #[trigger] crate::assoc::tget(crate::assoc::tmap(l.env@), k)) is Some
                && crate::assoc::tget(crate::assoc::tmap(r.env@), k) is Some && crate::assoc::tget(
                crate::assoc::tmap(l.env@),
                k,
            ) != crate::assoc::tget(crate::assoc::tmap(r.env@), k) ==> exists|i: int|
                0 <= i < d.env_changed@.len() && d.env_changed@[i].key@ == k,
{
    let keys = fresh_distinct(Seq::empty(), compared_keys(l.env@));
    let lt = crate::assoc::tmap(l.env@);
    let rt = crate::assoc::tmap(r.env@);
    let res = changed_env_spec(keys, lt, rt);
    lemma_changed_env_members(keys, lt, rt);
    assert(env_change_views(d.env_changed@) == res);
    assert forall|i: int| 0 <= i < d.env_changed@.len() implies {
        let c = #[trigger] d.env_changed@[i];
        &&& c.key@ != "out"@ && c.key@ != "outputs"@ && c.key@ != "drvPath"@ && c.key@ != "builder"@
        &&& crate::assoc::tget(crate::assoc::tmap(l.env@), c.key@) == Some(c.old_value@)
        &&& crate::assoc::tget(crate::assoc::tmap(r.env@), c.key@) == Some(c.new_value@)
        &&& c.old_value@ != c.new_value@
    } by {
        let c = d.env_changed@[i];
        assert(res[i] == (c.key@, c.old_value@, c.new_value@));
        lemma_fresh_distinct_contains(Seq::empty(), compared_keys(l.env@), c.key@);
        lemma_compared_keys_contains(l.env@, c.key@);
    }
    assert forall|k: Seq<char>|
        k != "out"@ && k != "outputs"@ && k != "drvPath"@ && k != "builder"@ && (
        #[trigger] crate::assoc::tget(crate::assoc::tmap(l.env@), k)) is Some
            && crate::assoc::tget(crate::assoc::tmap(r.env@), k) is Some && crate::assoc::tget(
            crate::assoc::tmap(l.env@),
            k,
        ) != crate::assoc::tget(crate::assoc::tmap(r.env@), k) implies exists|i: int|
            0 <= i < d.env_changed@.len() && d.env_changed@[i].key@ == k by {
        lemma_tget_some(l.env@, k);
        lemma_compared_keys_contains(l.env@, k);
        lemma_fresh_distinct_contains(Seq::empty(), compared_keys(l.env@), k);
        assert(keys.contains(k));
        let i = choose|i: int| 0 <= i < res.len() && (#[trigger] res[i]).0 == k;
        assert(res[i].0 == d.env_changed@[i].key@);
    }
}

} // verus!
