//! `profile list` and `profile rollback`: what they show and choose.
use vstd::prelude::*;
use crate::text::{views, owned, cat, text_eq};
use crate::profile::ManifestElement;
use crate::paint::sgr;
use crate::assoc::{sorted_by_key, sorted_key_positions};

verus! {

/// The lines of one package of the listing.
pub open spec fn element_lines(name: Seq<char>, e: ManifestElement) -> Seq<Seq<char>> {
    seq!["Name:               "@ + sgr(seq!['1']) + name + sgr(seq!['0'])] + (match e.attr_path {
        Some(a) => seq!["Flake attribute:    "@ + a@],
        None => Seq::empty(),
    }) + (match e.original_url {
        Some(u) => seq!["Original flake URL: "@ + u@],
        None => Seq::empty(),
    }) + (match e.url {
        Some(u) => seq!["Locked flake URL:   "@ + u@],
        None => Seq::empty(),
    }) + if e.store_paths@.len() > 0 {
        seq!["Store paths:        "@ + e.store_paths@[0]@] + views(e.store_paths@).skip(1).map_values(
            |p: Seq<char>| "                    "@ + p,
        )
    } else {
        Seq::empty()
    }
}

/// The listing of the packages, in the order given, a blank line between
/// packages.
pub open spec fn list_lines_spec(es: Seq<(String, ManifestElement)>) -> Seq<Seq<char>>
    decreases es.len(),
{
    if es.len() == 0 {
        Seq::empty()
    } else if es.len() == 1 {
        element_lines(es[0].0@, es[0].1)
    } else {
        list_lines_spec(es.drop_last()) + seq![Seq::<char>::empty()] + element_lines(
            es.last().0@,
            es.last().1,
        )
    }
}

/// Appends the lines of one package.
fn push_element(out: &mut Vec<String>, name: &str, e: &ManifestElement)
    ensures
        views(final(out)@) == views(old(out)@) + element_lines(name@, *e),
{
    proof {
        reveal_strlit("\x1b[1m");
        reveal_strlit("\x1b[0m");
    }
    let mut head = String::from_str("Name:               \x1b[1m");
    head.append(name);
    head.append("\x1b[0m");
    assert(head@ =~= "Name:               "@ + sgr(seq!['1']) + name@ + sgr(seq!['0'])) by {
        reveal_strlit("Name:               \x1b[1m");
        reveal_strlit("Name:               ");
    }
    out.push(head);
    match &e.attr_path {
        Some(a) => out.push(cat("Flake attribute:    ", a.as_str())),
        None => {},
    }
    match &e.original_url {
        Some(u) => out.push(cat("Original flake URL: ", u.as_str())),
        None => {},
    }
    match &e.url {
        Some(u) => out.push(cat("Locked flake URL:   ", u.as_str())),
        None => {},
    }
    let ghost mid = views(out@);
    let n = e.store_paths.len();
    if n > 0 {
        out.push(cat("Store paths:        ", e.store_paths[0].as_str()));
        let ghost start = views(out@);
        let ghost rest = views(e.store_paths@).skip(1);
        for i in 1..n
            invariant
                n == e.store_paths@.len(),
                rest == views(e.store_paths@).skip(1),
                views(out@) == start + rest.take(i - 1).map_values(|p: Seq<char>| "                    "@ + p),
        {
            let ghost before = views(out@);
            out.push(cat("                    ", e.store_paths[i].as_str()));
            assert(rest[i - 1] == e.store_paths@[i as int]@);
            assert(views(out@) =~= before.push("                    "@ + rest[i - 1]));
            assert(rest.take(i as int) =~= rest.take(i - 1).push(rest[i - 1]));
            assert(rest.take(i as int).map_values(|p: Seq<char>| "                    "@ + p) =~= rest.take(
                i - 1,
            ).map_values(|p: Seq<char>| "                    "@ + p).push("                    "@ + rest[i - 1]));
            assert(views(out@) =~= start + rest.take(i as int).map_values(|p: Seq<char>| "                    "@ + p));
        }
        assert(rest.take(n - 1) =~= rest);
    }
    assert(views(out@) =~= views(old(out)@) + element_lines(name@, *e));
}

/// The listing of `profile list`: the packages sorted by name, a blank
/// line between packages, or a note when there is none.
pub open spec fn installed_listing(es: Seq<(String, ManifestElement)>) -> Seq<Seq<char>> {
    if es.len() == 0 {
        seq!["No packages installed."@]
    } else {
        list_lines_spec(sorted_by_key(es))
    }
}

/// The listing of the installed packages, sorted by name.
pub fn list_lines(elements: &Vec<(String, ManifestElement)>) -> (r: Vec<String>)
    ensures
        views(r@) == installed_listing(elements@),
{
    let mut out: Vec<String> = Vec::new();
    if elements.len() == 0 {
        out.push(String::from_str("No packages installed."));
        proof { reveal_strlit("No packages installed."); }
        assert(views(out@) =~= seq!["No packages installed."@]);
        return out;
    }
    let pos = sorted_key_positions(elements);
    let ghost es = sorted_by_key(elements@);
    let n = pos.len();
    for i in 0..n
        invariant
            n == pos@.len(),
            es == sorted_by_key(elements@),
            es.len() == n,
            forall|j: int| 0 <= j < n ==> #[trigger] crate::assoc::placed_at(elements@, es, pos@, j),
            views(out@) == list_lines_spec(es.take(i as int)),
    {
        assert(es.take(i + 1).drop_last() =~= es.take(i as int));
        assert(es.take(i + 1).last() == es[i as int]);
        let j = pos[i];
        assert(crate::assoc::placed_at(elements@, es, pos@, i as int));
        if i > 0 {
            out.push(String::new());
        } else {
            assert(es.take(1)[0] == es[0]);
        }
        push_element(&mut out, elements[j].0.as_str(), &elements[j].1);
    }
    assert(es.take(n as int) =~= es);
    out
}

/// The index of the generation `rollback` goes back to: among the
/// generations (number and link target) the last one, in the order given,
/// whose number is below that of the first generation whose target is the
/// current profile.
pub open spec fn rollback_index(gens: Seq<(u32, Seq<char>)>, current: Seq<char>) -> int {
    if exists|c: int| 0 <= c < gens.len() && gens[c].1 == current {
        let c = choose|c: int|
            0 <= c < gens.len() && gens[c].1 == current && forall|k: int| 0 <= k < c ==> gens[k].1 != current;
        if exists|j: int| 0 <= j < gens.len() && gens[j].0 < gens[c].0 {
            choose|j: int|
                0 <= j < gens.len() && gens[j].0 < gens[c].0 && forall|k: int| j < k < gens.len() ==> !(gens[k].0 < gens[c].0)
        } else {
            -1
        }
    } else {
        -1
    }
}

/// The generations as numbers and texts.
pub open spec fn gen_views(g: Seq<(u32, String)>) -> Seq<(u32, Seq<char>)> {
    g.map_values(|x: (u32, String)| (x.0, x.1@))
}

/// The generation `rollback` goes back to, as its index among `gens`.
pub fn rollback_target(gens: &Vec<(u32, String)>, current: &str) -> (r: Option<usize>)
    ensures
        match r {
            Some(j) => rollback_index(gen_views(gens@), current@) == j as int,
            None => rollback_index(gen_views(gens@), current@) == -1,
        },
{
    let ghost g = gen_views(gens@);
    let n = gens.len();
    let mut c: usize = 0;
    while c < n && !text_eq(gens[c].1.as_str(), current)
        invariant
            n == gens@.len(),
            c <= n,
            g == gen_views(gens@),
            forall|k: int| 0 <= k < c ==> g[k].1 != current@,
        decreases n - c,
    {
        assert(g[c as int].1 == gens@[c as int].1@);
        c = c + 1;
    }
    if c == n {
        assert(!exists|x: int| 0 <= x < g.len() && g[x].1 == current@);
        return None;
    }
    assert(g[c as int].1 == current@);
    let cur = gens[c].0;
    assert(g[c as int].0 == cur);
    let ghost cc = choose|x: int|
        0 <= x < g.len() && g[x].1 == current@ && forall|k: int| 0 <= k < x ==> g[k].1 != current@;
    assert(cc == c as int) by {
        if cc < c as int {
        } else if cc > c as int {
            assert(g[c as int].1 == current@);
        }
    }
    let mut j: usize = n;
    while j > 0 && !(gens[j - 1].0 < cur)
        invariant
            n == gens@.len(),
            j <= n,
            g == gen_views(gens@),
            forall|k: int| j <= k < n ==> !(g[k].0 < cur),
        decreases j,
    {
        j = j - 1;
    }
    if j == 0 {
        assert(!exists|x: int| 0 <= x < g.len() && g[x].0 < cur);
        return None;
    }
    let ghost jj = choose|x: int|
        0 <= x < g.len() && g[x].0 < g[cc].0 && forall|k: int| x < k < g.len() ==> !(g[k].0 < g[cc].0);
    assert(g[j - 1].0 < cur);
    assert(jj == j - 1) by {
        if jj < j - 1 {
            assert(g[j - 1].0 < g[cc].0);
        }
    }
    Some(j - 1)
}

/// The line after a rollback.
pub fn rolled_back_message(generation: u32) -> (r: String)
    ensures
        r@ == "Rolled back to generation "@ + crate::numtext::decimal(generation as nat),
{
    let t = crate::numtext::u64_text(generation as u64);
    cat("Rolled back to generation ", t.as_str())
}

/// The index of the first generation numbered `n`, or -1.
pub open spec fn generation_index(gens: Seq<(u32, Seq<char>)>, n: u32) -> int {
    if exists|i: int| 0 <= i < gens.len() && gens[i].0 == n {
        choose|i: int| 0 <= i < gens.len() && gens[i].0 == n && forall|k: int| 0 <= k < i ==> gens[k].0 != n
    } else {
        -1
    }
}

/// The generation `rollback --to n` goes to, as its index among `gens`.
pub fn find_generation(gens: &Vec<(u32, String)>, n: u32) -> (r: Option<usize>)
    ensures
        match r {
            Some(i) => generation_index(gen_views(gens@), n) == i as int,
            None => generation_index(gen_views(gens@), n) == -1,
        },
{
    let ghost g = gen_views(gens@);
    let len = gens.len();
    let mut i: usize = 0;
    while i < len
        invariant
            len == gens@.len(),
            i <= len,
            g == gen_views(gens@),
            forall|k: int| 0 <= k < i ==> g[k].0 != n,
        decreases len - i,
    {
        assert(g[i as int].0 == gens@[i as int].0);
        if gens[i].0 == n {
            proof {
                let c = choose|c: int| 0 <= c < g.len() && g[c].0 == n && forall|k: int| 0 <= k < c ==> g[k].0 != n;
                assert(g[i as int].0 == n);
                assert(c == i as int) by {
                    if c < i as int {
                        assert(g[c].0 != n);
                    } else if c > i as int {
                        assert(g[i as int].0 != n);
                    }
                }
            }
            return Some(i);
        }
        i = i + 1;
    }
    assert(!exists|x: int| 0 <= x < g.len() && g[x].0 == n);
    None
}

/// The error when `rollback --to n` finds no generation `n`.
pub fn generation_not_found_message(n: u32) -> (r: String)
    ensures
        r@ == "Generation "@ + crate::numtext::decimal(n as nat) + " not found"@,
{
    let t = crate::numtext::u64_text(n as u64);
    let head = cat("Generation ", t.as_str());
    cat(head.as_str(), " not found")
}

/// The generation numbers never decrease along `g`.
pub open spec fn by_number(g: Seq<(u32, String)>) -> bool {
    forall|i: int, j: int| 0 <= i < j < g.len() ==> g[i].0 <= g[j].0
}

/// Whether a generation is numbered `n`.
pub open spec fn has_number(n: u32) -> spec_fn((u32, String)) -> bool {
    |x: (u32, String)| x.0 == n
}

/// The generations numbered `n`, in their order along `g`.
pub open spec fn numbered(g: Seq<(u32, String)>, n: u32) -> Seq<(u32, String)> {
    g.filter(has_number(n))
}

proof fn lemma_numbered_none(s: Seq<(u32, String)>, n: u32)
    requires
        forall|i: int| 0 <= i < s.len() ==> s[i].0 != n,
    ensures
        numbered(s, n) =~= Seq::<(u32, String)>::empty(),
    decreases s.len(),
{
    reveal(Seq::filter);
    if s.len() > 0 {
        lemma_numbered_none(s.drop_last(), n);
    }
}

proof fn lemma_numbered_one(x: (u32, String), n: u32)
    ensures
        numbered(seq![x], n) =~= (if x.0 == n { seq![x] } else { Seq::<(u32, String)>::empty() }),
{
    reveal_with_fuel(Seq::filter, 2);
    assert(seq![x].drop_last() =~= Seq::<(u32, String)>::empty());
    assert(seq![x].last() == x);
    assert(Seq::<(u32, String)>::empty().filter(has_number(n)) =~= Seq::<(u32, String)>::empty());
}

/// Moving the first of `src` into `r` at `k`, past every generation of `r`
/// numbered at most its number and before the others, keeps what each
/// number's generations are, in order, over both.
proof fn lemma_numbered_moved(r: Seq<(u32, String)>, src: Seq<(u32, String)>, k: int, n: u32)
    requires
        src.len() > 0,
        0 <= k <= r.len(),
        forall|j: int| k <= j < r.len() ==> r[j].0 > src[0].0,
    ensures
        numbered(r.insert(k, src[0]), n) + numbered(src.drop_first(), n) =~= numbered(r, n) + numbered(src, n),
{
    let x = src[0];
    let p = has_number(n);
    let a = r.take(k);
    let b = r.skip(k);
    assert(r =~= a + b);
    assert(r.insert(k, x) =~= a + seq![x] + b);
    assert(src =~= seq![x] + src.drop_first());
    Seq::filter_distributes_over_add(a, b, p);
    Seq::filter_distributes_over_add(a + seq![x], b, p);
    Seq::filter_distributes_over_add(a, seq![x], p);
    Seq::filter_distributes_over_add(seq![x], src.drop_first(), p);
    lemma_numbered_one(x, n);
    if x.0 == n {
        lemma_numbered_none(b, n);
    }
}

/// The generations ordered by number; generations with the same number keep
/// their order.
pub fn sort_generations(gens: Vec<(u32, String)>) -> (r: Vec<(u32, String)>)
    ensures
        by_number(r@),
        forall|n: u32| #[trigger] numbered(r@, n) == numbered(gens@, n),
        r@.to_multiset() == gens@.to_multiset(),
{
    let ghost all = gens@.to_multiset();
    let mut src = gens;
    let mut r: Vec<(u32, String)> = Vec::new();
    let ghost g = gens@;
    proof {
        vstd::seq_lib::to_multiset_len(r@);
        vstd::multiset::lemma_multiset_empty_len(r@.to_multiset());
        assert forall|n: u32| #[trigger] numbered(r@, n) + numbered(src@, n) == numbered(g, n) by {
            lemma_numbered_none(r@, n);
            assert(numbered(r@, n) + numbered(src@, n) =~= numbered(src@, n));
        }
    }
    while src.len() > 0
        invariant
            by_number(r@),
            r@.to_multiset().add(src@.to_multiset()) == all,
            forall|n: u32| #[trigger] numbered(r@, n) + numbered(src@, n) == numbered(g, n),
        decreases src@.len(),
    {
        let ghost before = src@;
        let x = src.remove(0);
        proof { vstd::seq_lib::to_multiset_remove(before, 0); }
        let n = r.len();
        let mut k: usize = 0;
        while k < n && r[k].0 <= x.0
            invariant
                n == r@.len(),
                k <= n,
                forall|j: int| 0 <= j < k ==> r@[j].0 <= x.0,
            decreases n - k,
        {
            k = k + 1;
        }
        let ghost old_r = r@;
        assert(k < n ==> old_r[k as int].0 > x.0);
        r.insert(k, x);
        assert(r@ == old_r.insert(k as int, x));
        proof { vstd::seq_lib::to_multiset_insert(old_r, k as int, x); }
        assert forall|i: int, j: int| 0 <= i < j < r@.len() implies r@[i].0 <= r@[j].0 by {
            if j < k {
                assert(r@[i] == old_r[i] && r@[j] == old_r[j]);
            } else if j == k {
                assert(r@[i] == old_r[i]);
            } else if i < k {
                assert(r@[i] == old_r[i] && r@[j] == old_r[j - 1]);
                assert(old_r[k as int].0 > x.0);
            } else if i == k {
                assert(r@[j] == old_r[j - 1]);
                assert(old_r[k as int].0 > x.0);
                if j - 1 > k {
                    assert(old_r[k as int].0 <= old_r[j - 1].0);
                }
            } else {
                assert(r@[i] == old_r[i - 1] && r@[j] == old_r[j - 1]);
            }
        }
        assert(before.to_multiset() =~= src@.to_multiset().insert(x)) by {
            broadcast use vstd::multiset::group_multiset_axioms;

            vstd::seq_lib::to_multiset_contains(before, x);
            assert(before[0] == x);
            assert(before.contains(x));
        }
        assert(r@.to_multiset().add(src@.to_multiset()) =~= all);
        assert forall|m: u32| #[trigger] numbered(r@, m) + numbered(src@, m) == numbered(g, m) by {
            assert forall|j: int| k <= j < old_r.len() implies old_r[j].0 > before[0].0 by {
                if j > k {
                    assert(old_r[k as int].0 <= old_r[j].0);
                }
            }
            lemma_numbered_moved(old_r, before, k as int, m);
            assert(src@ == before.drop_first());
        }
    }
    proof {
        vstd::seq_lib::to_multiset_len(src@);
        vstd::multiset::lemma_multiset_empty_len(src@.to_multiset());
    }
    assert(r@.to_multiset().add(src@.to_multiset()) =~= r@.to_multiset());
    assert forall|n: u32| #[trigger] numbered(r@, n) == numbered(g, n) by {
        lemma_numbered_none(src@, n);
        assert(numbered(r@, n) + numbered(src@, n) =~= numbered(r@, n));
    }
    r
}

} // verus!
