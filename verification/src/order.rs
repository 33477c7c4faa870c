//! The lexicographic order of texts, and sorted sets of texts.
//!
//! Texts compare character by character by code point, which is the order
//! `str` and `String` have (UTF-8 byte order agrees with code point order).
use vstd::prelude::*;
use crate::text::views;

verus! {

/// `a` comes strictly before `b`.
pub open spec fn lex_lt(a: Seq<char>, b: Seq<char>) -> bool
    decreases a.len(),
{
    if b.len() == 0 {
        false
    } else if a.len() == 0 {
        true
    } else if a[0] != b[0] {
        (a[0] as u32) < (b[0] as u32)
    } else {
        lex_lt(a.drop_first(), b.drop_first())
    }
}

/// Every element comes strictly before every later one.
pub open spec fn strictly_sorted(s: Seq<Seq<char>>) -> bool {
    forall|i: int, j: int| 0 <= i < j < s.len() ==> lex_lt(s[i], s[j])
}

/// `s` is the strictly sorted listing of the set `m`.
pub open spec fn lists_sorted(s: Seq<Seq<char>>, m: Set<Seq<char>>) -> bool {
    &&& strictly_sorted(s)
    &&& s.to_set() == m
}

pub proof fn lemma_lex_irreflexive(a: Seq<char>)
    ensures
        !lex_lt(a, a),
    decreases a.len(),
{
    if a.len() > 0 {
        lemma_lex_irreflexive(a.drop_first());
    }
}

pub proof fn lemma_lex_transitive(a: Seq<char>, b: Seq<char>, c: Seq<char>)
    requires
        lex_lt(a, b),
        lex_lt(b, c),
    ensures
        lex_lt(a, c),
    decreases a.len(),
{
    if a.len() > 0 && b.len() > 0 && c.len() > 0 {
        if a[0] == b[0] && b[0] == c[0] {
            lemma_lex_transitive(a.drop_first(), b.drop_first(), c.drop_first());
        }
    }
}

pub proof fn lemma_lex_total(a: Seq<char>, b: Seq<char>)
    ensures
        a != b ==> (lex_lt(a, b) || lex_lt(b, a)),
        !(lex_lt(a, b) && lex_lt(b, a)),
    decreases a.len(),
{
    if a.len() > 0 && b.len() > 0 {
        lemma_lex_total(a.drop_first(), b.drop_first());
        vstd::utf8::char_u32_cast(a[0], a[0] as u32);
        vstd::utf8::char_u32_cast(b[0], b[0] as u32);
        if a[0] == b[0] && a.drop_first() == b.drop_first() {
            assert(a =~= seq![a[0]] + a.drop_first());
            assert(b =~= seq![b[0]] + b.drop_first());
        }
    } else if a.len() == 0 && b.len() == 0 {
        assert(a =~= b);
    }
}

/// Whether `a` comes strictly before `b`.
pub fn text_lt(a: &str, b: &str) -> (r: bool)
    ensures
        r == lex_lt(a@, b@),
{
    let x = crate::text::chars_of(a);
    let y = crate::text::chars_of(b);
    let mut i: usize = 0;
    assert(x@.skip(0) =~= x@);
    assert(y@.skip(0) =~= y@);
    while i < x.len() && i < y.len()
        invariant
            x@ == a@,
            y@ == b@,
            i <= x@.len(),
            i <= y@.len(),
            x@.take(i as int) == y@.take(i as int),
            lex_lt(x@, y@) == lex_lt(x@.skip(i as int), y@.skip(i as int)),
        decreases x@.len() - i,
    {
        if x[i] != y[i] {
            let cx: char = x[i];
            let cy: char = y[i];
            let ux: u32 = cx as u32;
            let uy: u32 = cy as u32;
            let r = ux < uy;

            assert(x@.skip(i as int)[0] == x@[i as int]);
            assert(y@.skip(i as int)[0] == y@[i as int]);
            assert(x@.skip(i as int).len() > 0 && y@.skip(i as int).len() > 0);
            assert(x@.skip(i as int)[0] != y@.skip(i as int)[0]);
            assert(lex_lt(x@.skip(i as int), y@.skip(i as int)) == ((x@[i as int] as u32) < (
            y@[i as int] as u32)));
            
            return r;
        }
        assert(x@.skip(i as int).drop_first() =~= x@.skip(i + 1));
        assert(y@.skip(i as int).drop_first() =~= y@.skip(i + 1));
        assert(x@.take(i + 1) =~= x@.take(i as int).push(x@[i as int]));
        assert(y@.take(i + 1) =~= y@.take(i as int).push(y@[i as int]));
        i = i + 1;
    }
    i < y.len()
}

/// Adds `x` to the sorted set `v`, keeping it strictly sorted.
pub fn sorted_insert(v: &mut Vec<String>, x: String)
    requires
        strictly_sorted(views(old(v)@)),
    ensures
        strictly_sorted(views(final(v)@)),
        views(final(v)@).to_set() == views(old(v)@).to_set().insert(x@),
{
    let n = v.len();
    let mut k: usize = 0;
    while k < n && text_lt(v[k].as_str(), x.as_str())
        invariant
            n == v@.len(),
            k <= n,
            strictly_sorted(views(v@)),
            forall|i: int| 0 <= i < k ==> lex_lt(#[trigger] views(v@)[i], x@),
        decreases n - k,
    {
        k = k + 1;
    }
    let ghost old_views = views(v@);
    if k < n && crate::text::text_eq(v[k].as_str(), x.as_str()) {
        assert(old_views[k as int] == x@);
        assert(old_views.to_set().insert(x@) =~= old_views.to_set());
        return;
    }
    proof {
        if k < n {
            lemma_lex_total(old_views[k as int], x@);
        }
    }
    v.insert(k, x);
    proof {
        let nv = views(v@);
        assert(nv =~= old_views.insert(k as int, x@));
        assert forall|i: int, j: int| 0 <= i < j < nv.len() implies lex_lt(nv[i], nv[j]) by {
            if j < k {
            } else if j == k {
            } else if i < k {
                // i before x, and x before old j - 1
                assert(lex_lt(old_views[i], x@));
                if j - 1 > k {
                    lemma_lex_transitive(x@, old_views[k as int], old_views[j - 1]);
                }
                lemma_lex_transitive(old_views[i], x@, old_views[j - 1]);
            } else if i == k {
                if j - 1 > k {
                    lemma_lex_transitive(x@, old_views[k as int], old_views[j - 1]);
                }
            } else {
            }
        }
        assert forall|e: Seq<char>| nv.to_set().contains(e) == old_views.to_set().insert(
            x@,
        ).contains(e) by {
            if nv.to_set().contains(e) {
                let i = choose|i: int| 0 <= i < nv.len() && nv[i] == e;
                if i < k {
                    assert(old_views[i] == e);
                } else if i > k {
                    assert(old_views[i - 1] == e);
                }
            }
            if old_views.to_set().contains(e) {
                let i = choose|i: int| 0 <= i < old_views.len() && old_views[i] == e;
                if i < k {
                    assert(nv[i] == e);
                } else {
                    assert(nv[i + 1] == e);
                }
            }
            if e == x@ {
                assert(nv[k as int] == e);
            }
        }
        assert(nv.to_set() =~= old_views.to_set().insert(x@));
    }
}

/// The strictly sorted listing of the distinct texts of `items`.
pub fn sorted_set_of(items: &Vec<String>) -> (r: Vec<String>)
    ensures
        lists_sorted(views(r@), views(items@).to_set()),
{
    let mut r: Vec<String> = Vec::new();
    let n = items.len();
    assert(views(r@).to_set() =~= views(items@).take(0).to_set());
    for i in 0..n
        invariant
            n == items@.len(),
            strictly_sorted(views(r@)),
            views(r@).to_set() == views(items@).take(i as int).to_set(),
    {
        let x = items[i].clone();
        sorted_insert(&mut r, x);
        proof {
            let t = views(items@).take(i + 1);
            assert(t =~= views(items@).take(i as int).push(items@[i as int]@));
            views(items@).take(i as int).lemma_push_to_set_commute(items@[i as int]@);
        }
    }
    assert(views(items@).take(n as int) =~= views(items@));
    r
}

/// The strictly sorted listing of a finite set of texts.
pub open spec fn sorted_listing(m: Set<Seq<char>>) -> Seq<Seq<char>> {
    choose|s: Seq<Seq<char>>| lists_sorted(s, m)
}

proof fn lemma_sorted_head_not_in_tail(a: Seq<Seq<char>>)
    requires
        strictly_sorted(a),
        a.len() > 0,
    ensures
        !a.drop_first().contains(a[0]),
{
    if a.drop_first().contains(a[0]) {
        let j = choose|j: int| 0 <= j < a.drop_first().len() && a.drop_first()[j] == a[0];
        assert(lex_lt(a[0], a[j + 1]));
        lemma_lex_irreflexive(a[0]);
    }
}

/// Two strictly sorted listings of the same texts are equal.
pub proof fn lemma_sorted_unique(a: Seq<Seq<char>>, b: Seq<Seq<char>>)
    requires
        strictly_sorted(a),
        strictly_sorted(b),
        a.to_set() == b.to_set(),
    ensures
        a == b,
    decreases a.len(),
{
    if a.len() == 0 {
        if b.len() > 0 {
            assert(b.to_set().contains(b[0]));
        }
        assert(a =~= b);
    } else {
        assert(a.to_set().contains(a[0]));
        assert(b.len() > 0) by {
            if b.len() == 0 {
                assert(b.to_set() =~= Set::empty());
            }
        }
        assert(b.to_set().contains(b[0]));
        let j = choose|j: int| 0 <= j < b.len() && b[j] == a[0];
        let k = choose|k: int| 0 <= k < a.len() && a[k] == b[0];
        if a[0] != b[0] {
            assert(j > 0 && k > 0);
            assert(lex_lt(b[0], b[j]));
            assert(lex_lt(a[0], a[k]));
            lemma_lex_total(a[0], b[0]);
        }
        let ta = a.drop_first();
        let tb = b.drop_first();
        lemma_sorted_head_not_in_tail(a);
        lemma_sorted_head_not_in_tail(b);
        assert(ta.to_set() =~= a.to_set().remove(a[0])) by {
            assert forall|x: Seq<char>| ta.to_set().contains(x) <==> a.to_set().remove(a[0]).contains(x) by {
                if ta.to_set().contains(x) {
                    let i = choose|i: int| 0 <= i < ta.len() && ta[i] == x;
                    assert(a[i + 1] == x);
                }
                if a.to_set().remove(a[0]).contains(x) {
                    let i = choose|i: int| 0 <= i < a.len() && a[i] == x;
                    assert(i != 0);
                    assert(ta[i - 1] == x);
                }
            }
        }
        assert(tb.to_set() =~= b.to_set().remove(b[0])) by {
            assert forall|x: Seq<char>| tb.to_set().contains(x) <==> b.to_set().remove(b[0]).contains(x) by {
                if tb.to_set().contains(x) {
                    let i = choose|i: int| 0 <= i < tb.len() && tb[i] == x;
                    assert(b[i + 1] == x);
                }
                if b.to_set().remove(b[0]).contains(x) {
                    let i = choose|i: int| 0 <= i < b.len() && b[i] == x;
                    assert(i != 0);
                    assert(tb[i - 1] == x);
                }
            }
        }
        assert(strictly_sorted(ta)) by {
            assert forall|i: int, k2: int| 0 <= i < k2 < ta.len() implies lex_lt(ta[i], ta[k2]) by {
                assert(ta[i] == a[i + 1] && ta[k2] == a[k2 + 1]);
            }
        }
        assert(strictly_sorted(tb)) by {
            assert forall|i: int, k2: int| 0 <= i < k2 < tb.len() implies lex_lt(tb[i], tb[k2]) by {
                assert(tb[i] == b[i + 1] && tb[k2] == b[k2 + 1]);
            }
        }
        lemma_sorted_unique(ta, tb);
        assert(a =~= seq![a[0]] + ta);
        assert(b =~= seq![b[0]] + tb);
    }
}

/// A strictly sorted listing of `m` is the sorted listing of `m`.
pub proof fn lemma_sorted_listing_is(s: Seq<Seq<char>>, m: Set<Seq<char>>)
    requires
        lists_sorted(s, m),
    ensures
        sorted_listing(m) == s,
{
    let c = sorted_listing(m);
    assert(lists_sorted(c, m));
    lemma_sorted_unique(c, s);
}

/// The first position of the sorted `s` whose text does not come before `x`.
pub open spec fn first_not_before(s: Seq<Seq<char>>, x: Seq<char>) -> int
    decreases s.len(),
{
    if s.len() == 0 {
        0
    } else if lex_lt(s[0], x) {
        1 + first_not_before(s.drop_first(), x)
    } else {
        0
    }
}

proof fn lemma_first_not_before(s: Seq<Seq<char>>, x: Seq<char>)
    requires
        strictly_sorted(s),
    ensures
        0 <= first_not_before(s, x) <= s.len(),
        forall|i: int| 0 <= i < first_not_before(s, x) ==> lex_lt(#[trigger] s[i], x),
        forall|i: int| first_not_before(s, x) <= i < s.len() ==> !lex_lt(#[trigger] s[i], x),
    decreases s.len(),
{
    if s.len() > 0 {
        let t = s.drop_first();
        assert forall|i: int, j: int| 0 <= i < j < t.len() implies lex_lt(t[i], t[j]) by {
            assert(t[i] == s[i + 1] && t[j] == s[j + 1]);
        }
        lemma_first_not_before(t, x);
        let k = first_not_before(s, x);
        if lex_lt(s[0], x) {
            assert forall|i: int| 0 <= i < k implies lex_lt(#[trigger] s[i], x) by {
                if i > 0 {
                    assert(s[i] == t[i - 1]);
                }
            }
            assert forall|i: int| k <= i < s.len() implies !lex_lt(#[trigger] s[i], x) by {
                assert(s[i] == t[i - 1]);
            }
        } else {
            assert forall|i: int| k <= i < s.len() implies !lex_lt(#[trigger] s[i], x) by {
                if i > 0 && lex_lt(s[i], x) {
                    lemma_lex_transitive(s[0], s[i], x);
                }
            }
        }
    }
}

/// Every finite set of texts has a strictly sorted listing.
pub proof fn lemma_sorted_listing_exists(m: Set<Seq<char>>)
    requires
        m.finite(),
    ensures
        lists_sorted(sorted_listing(m), m),
    decreases m.len(),
{
    if m.len() == 0 {
        m.lemma_len0_is_empty();
        let e = Seq::<Seq<char>>::empty();
        assert(e.to_set() =~= m);
        assert(lists_sorted(e, m));
    } else {
        let x = m.choose();
        let rest = m.remove(x);
        vstd::set::axiom_set_remove_len(m, x);
        vstd::set::axiom_set_remove_finite(m, x);
        lemma_sorted_listing_exists(rest);
        let t = sorted_listing(rest);
        lemma_first_not_before(t, x);
        let k = first_not_before(t, x);
        let nv = t.insert(k, x);
        assert(!t.contains(x)) by {
            if t.contains(x) {
                let j = choose|j: int| 0 <= j < t.len() && t[j] == x;
                assert(t.to_set().contains(x));
            }
        }
        if k < t.len() {
            lemma_lex_total(t[k], x);
            assert(t[k] != x);
        }
        assert forall|i: int, j: int| 0 <= i < j < nv.len() implies lex_lt(nv[i], nv[j]) by {
            if j < k {
                assert(nv[i] == t[i] && nv[j] == t[j]);
            } else if j == k {
                assert(nv[i] == t[i]);
                assert(lex_lt(t[i], x));
            } else if i < k {
                assert(nv[i] == t[i] && nv[j] == t[j - 1]);
                assert(lex_lt(t[i], x));
                if j - 1 > k {
                    lemma_lex_transitive(x, t[k], t[j - 1]);
                }
                lemma_lex_transitive(t[i], x, t[j - 1]);
            } else if i == k {
                assert(nv[j] == t[j - 1]);
                if j - 1 > k {
                    lemma_lex_transitive(x, t[k], t[j - 1]);
                }
            } else {
                assert(nv[i] == t[i - 1] && nv[j] == t[j - 1]);
            }
        }
        assert forall|e: Seq<char>| nv.to_set().contains(e) == m.contains(e) by {
            if nv.to_set().contains(e) {
                let i = choose|i: int| 0 <= i < nv.len() && nv[i] == e;
                if i < k {
                    assert(t[i] == e);
                    assert(t.to_set().contains(e));
                } else if i > k {
                    assert(t[i - 1] == e);
                    assert(t.to_set().contains(e));
                }
            }
            if m.contains(e) {
                if e == x {
                    assert(nv[k] == e);
                } else {
                    assert(rest.contains(e));
                    assert(t.to_set().contains(e));
                    let i = choose|i: int| 0 <= i < t.len() && t[i] == e;
                    if i < k {
                        assert(nv[i] == e);
                    } else {
                        assert(nv[i + 1] == e);
                    }
                }
            }
        }
        assert(nv.to_set() =~= m);
        assert(lists_sorted(nv, m));
    }
}

} // verus!
