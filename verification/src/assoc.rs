//! Maps from text keys kept as vectors of (key, value) pairs: looking a key
//! up finds its first pair, and putting a key replaces that pair's value in
//! place or appends a new pair (the effect of a map `insert`).
use vstd::prelude::*;
use crate::text::{views, owned};
use crate::order::{sorted_listing, sorted_set_of, lists_sorted, lemma_sorted_listing_is};

verus! {

/// The keys of the pairs, as texts.
pub open spec fn keys_of<V>(s: Seq<(String, V)>) -> Seq<Seq<char>> {
    s.map_values(|p: (String, V)| p.0@)
}

/// Position of the first occurrence of `k` in `keys`, or -1.
pub open spec fn key_index(keys: Seq<Seq<char>>, k: Seq<char>) -> int
    decreases keys.len(),
{
    if keys.len() == 0 {
        -1
    } else if keys[0] == k {
        0
    } else {
        let r = key_index(keys.drop_first(), k);
        if r < 0 {
            -1
        } else {
            r + 1
        }
    }
}

pub proof fn lemma_key_index(keys: Seq<Seq<char>>, k: Seq<char>)
    ensures
        -1 <= key_index(keys, k) < keys.len(),
        key_index(keys, k) >= 0 ==> keys[key_index(keys, k)] == k,
        forall|j: int| 0 <= j < key_index(keys, k) ==> keys[j] != k,
        key_index(keys, k) < 0 <==> !keys.contains(k),
    decreases keys.len(),
{
    if keys.len() > 0 && keys[0] != k {
        lemma_key_index(keys.drop_first(), k);
        assert forall|j: int| 0 <= j < key_index(keys, k) implies keys[j] != k by {
            if j > 0 {
                assert(keys[j] == keys.drop_first()[j - 1]);
            }
        }
        if keys.contains(k) {
            let j = choose|j: int| 0 <= j < keys.len() && keys[j] == k;
            assert(keys.drop_first()[j - 1] == k);
        }
        if keys.drop_first().contains(k) {
            let j = choose|j: int| 0 <= j < keys.drop_first().len() && keys.drop_first()[j] == k;
            assert(keys[j + 1] == k);
        }
    } else if keys.len() > 0 {
        assert(keys.contains(k)) by {
            assert(keys[0] == k);
        }
    }
}

pub proof fn lemma_key_index_is(keys: Seq<Seq<char>>, k: Seq<char>, i: int)
    requires
        -1 <= i < keys.len(),
        i >= 0 ==> keys[i] == k,
        forall|j: int| 0 <= j < i ==> keys[j] != k,
        i < 0 ==> forall|j: int| 0 <= j < keys.len() ==> keys[j] != k,
    ensures
        key_index(keys, k) == i,
{
    lemma_key_index(keys, k);
    let p = key_index(keys, k);
    if i >= 0 {
        assert(!(p >= 0 && p < i));
        assert(!(p > i));
        assert(!(p < 0)) by {
            if p < 0 {
                assert(keys.contains(k)) by {
                    assert(keys[i] == k);
                }
            }
        }
    } else {
        assert(!(p >= 0));
    }
}

/// Position of the first pair of `v` whose key is `k`.
pub fn find_key<V>(v: &Vec<(String, V)>, k: &str) -> (r: Option<usize>)
    ensures
        match r {
            Some(i) => i < v@.len() && key_index(keys_of(v@), k@) == i as int,
            None => key_index(keys_of(v@), k@) == -1,
        },
{
    let n = v.len();
    let mut i: usize = 0;
    while i < n
        invariant
            n == v@.len(),
            i <= n,
            forall|j: int| 0 <= j < i ==> keys_of(v@)[j] != k@,
        decreases n - i,
    {
        if crate::text::text_eq(v[i].0.as_str(), k) {
            proof { lemma_key_index_is(keys_of(v@), k@, i as int); }
            return Some(i);
        }
        i = i + 1;
    }
    proof { lemma_key_index_is(keys_of(v@), k@, -1); }
    None
}

/// The keys of a map of texts.
pub open spec fn tkeys(m: Seq<(Seq<char>, Seq<char>)>) -> Seq<Seq<char>> {
    m.map_values(|p: (Seq<char>, Seq<char>)| p.0)
}

/// The value of the first pair with key `k`.
pub open spec fn tget(m: Seq<(Seq<char>, Seq<char>)>, k: Seq<char>) -> Option<Seq<char>> {
    let i = key_index(tkeys(m), k);
    if i >= 0 {
        Some(m[i].1)
    } else {
        None
    }
}

/// `m` after putting `v` under key `k`.
pub open spec fn tput(m: Seq<(Seq<char>, Seq<char>)>, k: Seq<char>, v: Seq<char>) -> Seq<(Seq<char>, Seq<char>)> {
    let i = key_index(tkeys(m), k);
    if i >= 0 {
        m.update(i, (k, v))
    } else {
        m.push((k, v))
    }
}

/// Putting a key keeps the keys of a map distinct.
pub proof fn lemma_tput_keeps_keys_distinct(m: Seq<(Seq<char>, Seq<char>)>, k: Seq<char>, v: Seq<char>)
    requires
        tkeys(m).no_duplicates(),
    ensures
        tkeys(tput(m, k, v)).no_duplicates(),
{
    lemma_key_index(tkeys(m), k);
    let i = key_index(tkeys(m), k);
    if i >= 0 {
        assert(tkeys(m.update(i, (k, v))) =~= tkeys(m));
    } else {
        let t = tkeys(m.push((k, v)));
        assert(t =~= tkeys(m).push(k));
        assert forall|a: int, b: int| 0 <= a < t.len() && 0 <= b < t.len() && a != b implies t[a] != t[b] by {
            if b == t.len() - 1 {
                assert(tkeys(m)[a] == t[a]);
            } else if a == t.len() - 1 {
                assert(tkeys(m)[b] == t[b]);
            } else {
                assert(tkeys(m)[a] == t[a] && tkeys(m)[b] == t[b]);
            }
        }
    }
}

/// In a map with distinct keys, each pair is what its key finds.
pub proof fn lemma_tget_distinct(m: Seq<(Seq<char>, Seq<char>)>, j: int)
    requires
        tkeys(m).no_duplicates(),
        0 <= j < m.len(),
    ensures
        tget(m, m[j].0) == Some(m[j].1),
{
    assert(tkeys(m)[j] == m[j].0);
    lemma_key_index_is(tkeys(m), m[j].0, j);
}

/// A map of owned texts, as texts.
pub open spec fn tmap(v: Seq<(String, String)>) -> Seq<(Seq<char>, Seq<char>)> {
    v.map_values(|p: (String, String)| (p.0@, p.1@))
}

/// Puts `val` under key `k`.
pub fn put_text(m: &mut Vec<(String, String)>, k: String, val: String)
    ensures
        tmap(final(m)@) == tput(tmap(old(m)@), k@, val@),
{
    let ghost kv = k@;
    let ghost vv = val@;
    let r = find_key(m, k.as_str());
    assert(keys_of(m@) =~= tkeys(tmap(m@)));
    match r {
        Some(i) => {
            m.set(i, (k, val));
            assert(tmap(m@) =~= tmap(old(m)@).update(i as int, (kv, vv)));
        },
        None => {
            m.push((k, val));
            assert(tmap(m@) =~= tmap(old(m)@).push((kv, vv)));
        },
    }
}

/// The value under key `k`.
pub fn get_text<'a>(m: &'a Vec<(String, String)>, k: &str) -> (r: Option<&'a String>)
    ensures
        match r {
            Some(v) => tget(tmap(m@), k@) == Some(v@),
            None => tget(tmap(m@), k@).is_none(),
        },
{
    let r = find_key(m, k);
    assert(keys_of(m@) =~= tkeys(tmap(m@)));
    match r {
        Some(i) => Some(&m[i].1),
        None => None,
    }
}

/// The keys of a map, as texts.
pub open spec fn vkeys<V>(m: Seq<(Seq<char>, V)>) -> Seq<Seq<char>> {
    m.map_values(|p: (Seq<char>, V)| p.0)
}

/// The value of the first pair with key `k`.
pub open spec fn vget<V>(m: Seq<(Seq<char>, V)>, k: Seq<char>) -> Option<V> {
    let i = key_index(vkeys(m), k);
    if i >= 0 {
        Some(m[i].1)
    } else {
        None
    }
}

/// `m` after putting `v` under key `k` (replacing the first pair with that
/// key in place, else appending).
pub open spec fn vput<V>(m: Seq<(Seq<char>, V)>, k: Seq<char>, v: V) -> Seq<(Seq<char>, V)> {
    let i = key_index(vkeys(m), k);
    if i >= 0 {
        m.update(i, (k, v))
    } else {
        m.push((k, v))
    }
}

/// `m` after putting `v` under key `k`, on owned keys.
pub open spec fn put_spec<V>(m: Seq<(String, V)>, k: String, v: V) -> Seq<(String, V)> {
    let i = key_index(keys_of(m), k@);
    if i >= 0 {
        m.update(i, (k, v))
    } else {
        m.push((k, v))
    }
}

/// Putting a key keeps the keys of a map distinct.
pub proof fn lemma_put_keeps_keys_distinct<V>(m: Seq<(String, V)>, k: String, v: V)
    requires
        keys_of(m).no_duplicates(),
    ensures
        keys_of(put_spec(m, k, v)).no_duplicates(),
{
    lemma_key_index(keys_of(m), k@);
    let i = key_index(keys_of(m), k@);
    if i >= 0 {
        assert(keys_of(m.update(i, (k, v))) =~= keys_of(m));
    } else {
        let t = keys_of(m.push((k, v)));
        assert(t =~= keys_of(m).push(k@));
        assert forall|a: int, b: int| 0 <= a < t.len() && 0 <= b < t.len() && a != b implies t[a] != t[b] by {
            if b == t.len() - 1 {
                assert(keys_of(m)[a] == t[a]);
            } else if a == t.len() - 1 {
                assert(keys_of(m)[b] == t[b]);
            } else {
                assert(keys_of(m)[a] == t[a] && keys_of(m)[b] == t[b]);
            }
        }
    }
}

/// The map made by putting the pairs of `es` in turn into an empty map:
/// for each key, the value of its last pair, at the place of its first.
pub open spec fn puts_of<V>(es: Seq<(String, V)>) -> Seq<(String, V)>
    decreases es.len(),
{
    if es.len() == 0 {
        Seq::empty()
    } else {
        put_spec(puts_of(es.drop_last()), es.last().0, es.last().1)
    }
}

/// Puts `v` under key `k` (a map `insert`).
pub fn put<V>(m: &mut Vec<(String, V)>, k: String, v: V)
    ensures
        final(m)@ == put_spec(old(m)@, k, v),
{
    match find_key(m, k.as_str()) {
        Some(i) => {
            m.set(i, (k, v));
        },
        None => {
            m.push((k, v));
        },
    }
}

/// The pairs of `es` sorted by key: for each key, in order, its first pair
/// (the order a map with these entries is walked in by key).
pub open spec fn sorted_by_key<V>(es: Seq<(String, V)>) -> Seq<(String, V)> {
    sorted_listing(keys_of(es).to_set()).map_values(|k: Seq<char>| es[key_index(keys_of(es), k)])
}

/// Position `r[j]` of `es` holds the `j`-th pair of `sorted`.
pub open spec fn placed_at<V>(es: Seq<(String, V)>, sorted: Seq<(String, V)>, r: Seq<usize>, j: int) -> bool {
    r[j] < es.len() && es[r[j] as int] == sorted[j]
}

/// The positions of the pairs of `es`, in the order of `sorted_by_key`.
pub fn sorted_key_positions<V>(es: &Vec<(String, V)>) -> (r: Vec<usize>)
    ensures
        r@.len() == sorted_by_key(es@).len(),
        forall|j: int| 0 <= j < r@.len() ==> #[trigger] placed_at(es@, sorted_by_key(es@), r@, j),
{
    let en = es.len();
    let mut names: Vec<String> = Vec::new();
    for i in 0..en
        invariant
            en == es@.len(),
            views(names@) == keys_of(es@).take(i as int),
    {
        names.push(owned(es[i].0.as_str()));
        assert(keys_of(es@).take(i + 1) =~= keys_of(es@).take(i as int).push(es@[i as int].0@));
        assert(views(names@) =~= keys_of(es@).take(i + 1));
    }
    assert(keys_of(es@).take(en as int) =~= keys_of(es@));
    let keys = sorted_set_of(&names);
    proof { lemma_sorted_listing_is(views(keys@), keys_of(es@).to_set()); }
    let ghost sorted = sorted_by_key(es@);
    let n = keys.len();
    let mut r: Vec<usize> = Vec::new();
    for i in 0..n
        invariant
            n == keys@.len(),
            sorted == sorted_by_key(es@),
            sorted.len() == n,
            views(keys@) == sorted_listing(keys_of(es@).to_set()),
            lists_sorted(views(keys@), keys_of(es@).to_set()),
            r@.len() == i,
            forall|j: int| 0 <= j < i ==> #[trigger] placed_at(es@, sorted, r@, j),
    {
        let k = keys[i].as_str();
        assert(views(keys@)[i as int] == k@);
        assert(keys_of(es@).to_set().contains(k@)) by {
            assert(views(keys@).to_set().contains(k@));
        }
        proof { lemma_key_index(keys_of(es@), k@); }
        match find_key(es, k) {
            Some(j) => {
                assert(sorted[i as int] == es@[j as int]);
                let ghost before = r@;
                r.push(j);
                assert forall|jj: int| 0 <= jj < i + 1 implies #[trigger] placed_at(es@, sorted, r@, jj) by {
                    if jj < i {
                        assert(placed_at(es@, sorted, before, jj));
                        assert(r@[jj] == before[jj]);
                    }
                }
            },
            None => {
                assert(false);
            },
        }
    }
    r
}

} // verus!
