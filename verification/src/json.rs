//! JSON documents (lock files, derivation listings, flake metadata) as
//! values the library can read and build.
//!
//! An object keeps its members in a vector; lookups find the first member
//! with the key, and assigning to a key replaces that member in place or
//! appends a new one.  Documents that come from a parser have distinct keys.
use vstd::prelude::*;
use crate::text::views;

verus! {

/// The mathematical value of a JSON document.
pub enum JVal {
    Null,
    Bool(bool),
    UInt(u64),
    NegInt(i64),
    Fraction(Seq<char>),
    Str(Seq<char>),
    Array(Seq<JVal>),
    Object(Seq<(Seq<char>, JVal)>),
}

/// A JSON document.  Non-negative integers are `UInt`, negative ones
/// `NegInt`; any other number is kept as its text in `Fraction`.
pub enum Json {
    Null,
    Bool(bool),
    UInt(u64),
    NegInt(i64),
    Fraction(String),
    Str(String),
    Array(Vec<Json>),
    Object(Vec<(String, Json)>),
}

/// The members of an object, by value.
pub open spec fn members_deep(e: Seq<(String, Json)>) -> Seq<(Seq<char>, JVal)> {
    Seq::new(e.len(), |i: int| (e[i].0@, e[i].1.deep()))
}

/// The elements of an array, by value.
pub open spec fn elems_deep(e: Seq<Json>) -> Seq<JVal> {
    Seq::new(e.len(), |i: int| e[i].deep())
}

impl Json {
    /// The value of this document.
    pub open spec fn deep(self) -> JVal
        decreases self,
    {
        match self {
            Json::Null => JVal::Null,
            Json::Bool(b) => JVal::Bool(b),
            Json::UInt(u) => JVal::UInt(u),
            Json::NegInt(i) => JVal::NegInt(i),
            Json::Fraction(s) => JVal::Fraction(s@),
            Json::Str(s) => JVal::Str(s@),
            Json::Array(v) => JVal::Array(
                Seq::new(
                    v@.len(),
                    |i: int|
                        if 0 <= i < v@.len() {
                            proof {
                                assert(decreases_to!(self => v@[i]));
                            }
                            v@[i].deep()
                        } else {
                            JVal::Null
                        },
                ),
            ),
            Json::Object(v) => JVal::Object(
                Seq::new(
                    v@.len(),
                    |i: int|
                        if 0 <= i < v@.len() {
                            proof {
                                assert(decreases_to!(self => v@[i].1));
                            }
                            (v@[i].0@, v@[i].1.deep())
                        } else {
                            (Seq::empty(), JVal::Null)
                        },
                ),
            ),
        }
    }
}

pub proof fn lemma_object_deep(v: Vec<(String, Json)>)
    ensures
        Json::Object(v).deep() == JVal::Object(members_deep(v@)),
{
    if let JVal::Object(s) = Json::Object(v).deep() {
        assert(s =~= members_deep(v@));
    }
}

pub proof fn lemma_array_deep(v: Vec<Json>)
    ensures
        Json::Array(v).deep() == JVal::Array(elems_deep(v@)),
{
    if let JVal::Array(s) = Json::Array(v).deep() {
        assert(s =~= elems_deep(v@));
    }
}

/// Position of the first member with key `k`, or -1.
pub open spec fn key_pos(s: Seq<(Seq<char>, JVal)>, k: Seq<char>) -> int
    decreases s.len(),
{
    if s.len() == 0 {
        -1
    } else if s[0].0 == k {
        0
    } else {
        let r = key_pos(s.drop_first(), k);
        if r < 0 {
            -1
        } else {
            r + 1
        }
    }
}

/// The value of the first member with key `k`.
pub open spec fn lookup(s: Seq<(Seq<char>, JVal)>, k: Seq<char>) -> Option<JVal> {
    let p = key_pos(s, k);
    if p >= 0 {
        Some(s[p].1)
    } else {
        None
    }
}

/// Members `s` after assigning `v` to key `k`: the first member with that
/// key is replaced in place, or a new member is appended.
pub open spec fn upsert(s: Seq<(Seq<char>, JVal)>, k: Seq<char>, v: JVal) -> Seq<(Seq<char>, JVal)> {
    let p = key_pos(s, k);
    if p >= 0 {
        s.update(p, (k, v))
    } else {
        s.push((k, v))
    }
}

pub proof fn lemma_key_pos(s: Seq<(Seq<char>, JVal)>, k: Seq<char>)
    ensures
        -1 <= key_pos(s, k) < s.len(),
        key_pos(s, k) >= 0 ==> s[key_pos(s, k)].0 == k,
        forall|j: int| 0 <= j < key_pos(s, k) ==> s[j].0 != k,
        key_pos(s, k) < 0 ==> forall|j: int| 0 <= j < s.len() ==> s[j].0 != k,
    decreases s.len(),
{
    if s.len() > 0 && s[0].0 != k {
        lemma_key_pos(s.drop_first(), k);
        assert forall|j: int| 0 <= j < key_pos(s, k) implies s[j].0 != k by {
            if j > 0 {
                assert(s[j] == s.drop_first()[j - 1]);
            }
        }
        if key_pos(s, k) < 0 {
            assert forall|j: int| 0 <= j < s.len() implies s[j].0 != k by {
                if j > 0 {
                    assert(s[j] == s.drop_first()[j - 1]);
                }
            }
        }
    }
}

/// A scan that stops at the first member with key `k` finds `key_pos`.
pub proof fn lemma_key_pos_is(s: Seq<(Seq<char>, JVal)>, k: Seq<char>, i: int)
    requires
        -1 <= i < s.len(),
        i >= 0 ==> s[i].0 == k,
        i >= 0 ==> forall|j: int| 0 <= j < i ==> s[j].0 != k,
        i < 0 ==> forall|j: int| 0 <= j < s.len() ==> s[j].0 != k,
    ensures
        key_pos(s, k) == i,
{
    lemma_key_pos(s, k);
    let p = key_pos(s, k);
    if i >= 0 {
        assert(!(p >= 0 && p < i));
        assert(!(p > i));
        assert(!(p < 0));
    } else {
        assert(!(p >= 0));
    }
}

/// The member named `k` of an object; nothing for other values.
pub open spec fn jget(v: JVal, k: Seq<char>) -> Option<JVal> {
    match v {
        JVal::Object(s) => lookup(s, k),
        _ => None,
    }
}

/// `v[k]`: the member named `k`, or null when there is none.
pub open spec fn jidx(v: JVal, k: Seq<char>) -> JVal {
    match jget(v, k) {
        Some(x) => x,
        None => JVal::Null,
    }
}

/// The text of a string value.
pub open spec fn jstr(v: JVal) -> Option<Seq<char>> {
    match v {
        JVal::Str(s) => Some(s),
        _ => None,
    }
}

/// `v[k]` as text, if it is a string.
pub open spec fn jget_str(v: JVal, k: Seq<char>) -> Option<Seq<char>> {
    match jget(v, k) {
        Some(x) => jstr(x),
        None => None,
    }
}

/// `v[k]` as text, or `d` when it is absent or not a string.
pub open spec fn jget_str_or(v: JVal, k: Seq<char>, d: Seq<char>) -> Seq<char> {
    match jget_str(v, k) {
        Some(s) => s,
        None => d,
    }
}

/// The value as a signed 64-bit integer, when it is an integer that fits.
pub open spec fn jas_i64(v: JVal) -> Option<i64> {
    match v {
        JVal::UInt(u) => if u <= i64::MAX {
            Some(u as i64)
        } else {
            None
        },
        JVal::NegInt(i) => Some(i),
        _ => None,
    }
}

/// The value as an unsigned 64-bit integer, when it is a non-negative integer.
pub open spec fn jas_u64(v: JVal) -> Option<u64> {
    match v {
        JVal::UInt(u) => Some(u),
        _ => None,
    }
}

/// The members of an object.
pub open spec fn jmembers(v: JVal) -> Option<Seq<(Seq<char>, JVal)>> {
    match v {
        JVal::Object(s) => Some(s),
        _ => None,
    }
}

/// The elements of an array.
pub open spec fn jelems(v: JVal) -> Option<Seq<JVal>> {
    match v {
        JVal::Array(s) => Some(s),
        _ => None,
    }
}

/// `v[path[0]][path[1]]... = val` as `serde_json` does it: a null on the way
/// becomes an empty object, and a missing member is added.
pub open spec fn jassign(v: JVal, path: Seq<Seq<char>>, val: JVal) -> JVal
    decreases path.len(),
{
    if path.len() == 0 {
        val
    } else {
        let s = match v {
            JVal::Object(s) => s,
            _ => Seq::empty(),
        };
        let inner = match lookup(s, path[0]) {
            Some(x) => x,
            None => JVal::Null,
        };
        JVal::Object(upsert(s, path[0], jassign(inner, path.drop_first(), val)))
    }
}

/// Every value on the way along `path` is null or an object, so that
/// assigning along it does not panic.
pub open spec fn assignable(v: JVal, path: Seq<Seq<char>>) -> bool
    decreases path.len(),
{
    if path.len() == 0 {
        true
    } else {
        (v is Null || v is Object) && assignable(jidx(v, path[0]), path.drop_first())
    }
}

/// Position of the first member of `e` with key `k`.
pub fn find_member(e: &Vec<(String, Json)>, k: &str) -> (r: Option<usize>)
    ensures
        match r {
            Some(i) => i < e@.len() && key_pos(members_deep(e@), k@) == i as int,
            None => key_pos(members_deep(e@), k@) == -1,
        },
{
    let n = e.len();
    let mut i: usize = 0;
    while i < n
        invariant
            n == e@.len(),
            i <= n,
            forall|j: int| 0 <= j < i ==> members_deep(e@)[j].0 != k@,
        decreases n - i,
    {
        if crate::text::text_eq(e[i].0.as_str(), k) {
            proof { lemma_key_pos_is(members_deep(e@), k@, i as int); }
            return Some(i);
        }
        i = i + 1;
    }
    proof { lemma_key_pos_is(members_deep(e@), k@, -1); }
    None
}

impl Json {
    /// The member named `k`, if this is an object that has one.
    pub fn get(&self, k: &str) -> (r: Option<&Json>)
        ensures
            match r {
                Some(x) => jget(self.deep(), k@) == Some(x.deep()),
                None => jget(self.deep(), k@).is_none(),
            },
    {
        match self {
            Json::Object(e) => {
                proof { lemma_object_deep(*e); }
                match find_member(e, k) {
                    Some(i) => Some(&e[i].1),
                    None => None,
                }
            },
            _ => None,
        }
    }

    /// The text, if this is a string.
    pub fn as_str(&self) -> (r: Option<&String>)
        ensures
            match r {
                Some(s) => jstr(self.deep()) == Some(s@),
                None => jstr(self.deep()).is_none(),
            },
    {
        match self {
            Json::Str(s) => Some(s),
            _ => None,
        }
    }

    /// The member named `k` as text, if it is a string.
    pub fn get_str(&self, k: &str) -> (r: Option<&String>)
        ensures
            match r {
                Some(s) => jget_str(self.deep(), k@) == Some(s@),
                None => jget_str(self.deep(), k@).is_none(),
            },
    {
        match self.get(k) {
            Some(x) => x.as_str(),
            None => None,
        }
    }

    /// The member named `k` as text, or `d`.
    pub fn get_str_or(&self, k: &str, d: &str) -> (r: String)
        ensures
            r@ == jget_str_or(self.deep(), k@, d@),
    {
        match self.get_str(k) {
            Some(s) => s.clone(),
            None => crate::text::owned(d),
        }
    }

    /// The value as a signed integer, if it is an integer that fits.
    pub fn as_i64(&self) -> (r: Option<i64>)
        ensures
            r == jas_i64(self.deep()),
    {
        match self {
            Json::UInt(u) => if *u <= 9223372036854775807u64 {
                Some(*u as i64)
            } else {
                None
            },
            Json::NegInt(i) => Some(*i),
            _ => None,
        }
    }

    /// The value as an unsigned integer, if it is a non-negative integer.
    pub fn as_u64(&self) -> (r: Option<u64>)
        ensures
            r == jas_u64(self.deep()),
    {
        match self {
            Json::UInt(u) => Some(*u),
            _ => None,
        }
    }

    /// The members, if this is an object.
    pub fn as_object(&self) -> (r: Option<&Vec<(String, Json)>>)
        ensures
            match r {
                Some(e) => jmembers(self.deep()) == Some(members_deep(e@)),
                None => jmembers(self.deep()).is_none(),
            },
    {
        match self {
            Json::Object(e) => {
                proof { lemma_object_deep(*e); }
                Some(e)
            },
            _ => None,
        }
    }

    /// The elements, if this is an array.
    pub fn as_array(&self) -> (r: Option<&Vec<Json>>)
        ensures
            match r {
                Some(e) => jelems(self.deep()) == Some(elems_deep(e@)),
                None => jelems(self.deep()).is_none(),
            },
    {
        match self {
            Json::Array(e) => {
                proof { lemma_array_deep(*e); }
                Some(e)
            },
            _ => None,
        }
    }

    /// Whether this is null.
    pub fn is_null(&self) -> (r: bool)
        ensures
            r == (self.deep() is Null),
    {
        match self {
            Json::Null => true,
            _ => false,
        }
    }

    /// A string value.
    pub fn string(s: &str) -> (r: Json)
        ensures
            r.deep() == JVal::Str(s@),
    {
        Json::Str(crate::text::owned(s))
    }

    /// A copy of this document.
    #[verifier::loop_isolation(false)]
    pub fn deep_clone(&self) -> (r: Json)
        ensures
            r.deep() == self.deep(),
        decreases self,
    {
        match self {
            Json::Null => Json::Null,
            Json::Bool(b) => Json::Bool(*b),
            Json::UInt(u) => Json::UInt(*u),
            Json::NegInt(i) => Json::NegInt(*i),
            Json::Fraction(s) => Json::Fraction(s.clone()),
            Json::Str(s) => Json::Str(s.clone()),
            Json::Array(v) => {
                let mut out: Vec<Json> = Vec::new();
                let n = v.len();
                for i in 0..n
                    invariant
                        n == v@.len(),
                        out@.len() == i,
                        forall|j: int| 0 <= j < i ==> (#[trigger] out@[j]).deep() == v@[j].deep(),
                {
                    assert(decreases_to!(*self => *v));
                    assert(decreases_to!(*v => v@));
                    assert(decreases_to!(*self => v@[i as int]));
                    let c = v[i].deep_clone();
                    out.push(c);
                }
                proof {
                    lemma_array_deep(*v);
                    lemma_array_deep(out);
                    assert(elems_deep(out@) =~= elems_deep(v@));
                }
                Json::Array(out)
            },
            Json::Object(v) => {
                let mut out: Vec<(String, Json)> = Vec::new();
                let n = v.len();
                for i in 0..n
                    invariant
                        n == v@.len(),
                        out@.len() == i,
                        forall|j: int|
                            0 <= j < i ==> (#[trigger] out@[j]).0@ == v@[j].0@ && out@[j].1.deep()
                                == v@[j].1.deep(),
                {
                    assert(decreases_to!(*self => *v));
                    assert(decreases_to!(*v => v@));
                    assert(decreases_to!(*self => v@[i as int].1));
                    let c = v[i].1.deep_clone();
                    out.push((v[i].0.clone(), c));
                }
                proof {
                    lemma_object_deep(*v);
                    lemma_object_deep(out);
                    assert(members_deep(out@) =~= members_deep(v@));
                }
                Json::Object(out)
            },
        }
    }
}

/// Assigns `val` to key `k` among the members `e`.
pub fn upsert_member(e: &mut Vec<(String, Json)>, k: String, val: Json)
    ensures
        members_deep(final(e)@) == upsert(members_deep(old(e)@), k@, val.deep()),
{
    let ghost kv = k@;
    let ghost vd = val.deep();
    match find_member(e, k.as_str()) {
        Some(i) => {
            let _ = e.remove(i);
            e.insert(i, (k, val));
            assert(members_deep(e@) =~= members_deep(old(e)@).update(i as int, (kv, vd)));
        },
        None => {
            e.push((k, val));
            assert(members_deep(e@) =~= members_deep(old(e)@).push((kv, vd)));
        },
    }
}

/// `target[path[from]][path[from + 1]]... = val`, as `serde_json` indexing does it.
pub fn assign_from(target: Json, path: &Vec<String>, from: usize, val: Json) -> (r: Json)
    requires
        from <= path@.len(),
        assignable(target.deep(), views(path@).skip(from as int)),
    ensures
        r.deep() == jassign(target.deep(), views(path@).skip(from as int), val.deep()),
    decreases path@.len() - from,
{
    let ghost p = views(path@).skip(from as int);
    if from == path.len() {
        assert(p.len() == 0);
        return val;
    }
    assert(p[0] == path@[from as int]@);
    assert(p.drop_first() =~= views(path@).skip(from + 1));
    let ghost td = target.deep();
    let mut e: Vec<(String, Json)> = match target {
        Json::Object(e) => {
            proof { lemma_object_deep(e); }
            e
        },
        _ => Vec::new(),
    };
    assert(members_deep(e@) == match td {
        JVal::Object(s) => s,
        _ => Seq::empty(),
    }) by {
        if !(td is Object) {
            assert(members_deep(e@) =~= Seq::empty());
        }
    }
    let key = path[from].clone();
    match find_member(&e, key.as_str()) {
        Some(i) => {
            let ghost m0 = members_deep(e@);
            proof { lemma_key_pos(m0, key@); }
            let (k, prev) = e.remove(i);
            assert(prev.deep() == m0[i as int].1);
            assert(jidx(td, p[0]) == prev.deep());
            let nv = assign_from(prev, path, from + 1, val);
            let ghost nvd = nv.deep();
            let ghost kv = k@;
            e.insert(i, (k, nv));
            proof {
                assert(kv == p[0]);
                assert(members_deep(e@) =~= m0.update(i as int, (p[0], nvd)));
                assert(lookup(m0, p[0]) == Some(m0[i as int].1));
                assert(upsert(m0, p[0], nvd) == m0.update(i as int, (p[0], nvd)));
                lemma_object_deep(e);
            }
            Json::Object(e)
        },
        None => {
            assert(jidx(td, p[0]) == JVal::Null);
            let ghost m0 = members_deep(e@);
            proof { lemma_key_pos(m0, key@); }
            let nv = assign_from(Json::Null, path, from + 1, val);
            let ghost nvd = nv.deep();
            let ghost kv = key@;
            e.push((key, nv));
            proof {
                assert(members_deep(e@) =~= m0.push((p[0], nvd)));
                assert(lookup(m0, p[0]) is None);
                lemma_object_deep(e);
            }
            Json::Object(e)
        },
    }
}

/// Whether every value along `path[from..]`, from `v` on, is null or an object.
pub fn assignable_from(v: &Json, path: &Vec<String>, from: usize) -> (r: bool)
    requires
        from <= path@.len(),
    ensures
        r == assignable(v.deep(), views(path@).skip(from as int)),
    decreases path@.len() - from,
{
    let ghost p = views(path@).skip(from as int);
    if from == path.len() {
        assert(p.len() == 0);
        return true;
    }
    assert(p[0] == path@[from as int]@);
    assert(p.drop_first() =~= views(path@).skip(from + 1));
    match v {
        Json::Null => {
            assert(jidx(v.deep(), p[0]) == JVal::Null);
            assignable_from(&Json::Null, path, from + 1)
        },
        Json::Object(_) => {
            match v.get(path[from].as_str()) {
                Some(inner) => assignable_from(inner, path, from + 1),
                None => {
                    assert(jidx(v.deep(), p[0]) == JVal::Null);
                    assignable_from(&Json::Null, path, from + 1)
                },
            }
        },
        _ => false,
    }
}

impl Json {
    /// Whether `assign` along `path` would find only nulls and objects on
    /// the way.
    pub fn assignable_along(&self, path: &Vec<String>) -> (r: bool)
        ensures
            r == assignable(self.deep(), views(path@)),
    {
        assert(views(path@).skip(0) =~= views(path@));
        assignable_from(self, path, 0)
    }

    /// `self[path[0]][path[1]]... = val`, as `serde_json` indexing does it.
    pub fn assign(&mut self, path: &Vec<String>, val: Json)
        requires
            assignable(old(self).deep(), views(path@)),
        ensures
            final(self).deep() == jassign(old(self).deep(), views(path@), val.deep()),
    {
        let mut t = Json::Null;
        std::mem::swap(&mut t, self);
        assert(views(path@).skip(0) =~= views(path@));
        let r = assign_from(t, path, 0, val);
        *self = r;
    }
}

/// `v[path[0]][path[1]]...`, null where a member is missing.
pub open spec fn jread(v: JVal, path: Seq<Seq<char>>) -> JVal
    decreases path.len(),
{
    if path.len() == 0 {
        v
    } else {
        jread(jidx(v, path[0]), path.drop_first())
    }
}

/// Assigning to a key and then looking it up gives the assigned value;
/// other keys keep their values.
pub proof fn lemma_lookup_upsert(s: Seq<(Seq<char>, JVal)>, k: Seq<char>, v: JVal, k2: Seq<char>)
    ensures
        lookup(upsert(s, k, v), k) == Some(v),
        k2 != k ==> lookup(upsert(s, k, v), k2) == lookup(s, k2),
{
    lemma_key_pos(s, k);
    lemma_key_pos(s, k2);
    let p = key_pos(s, k);
    let u = upsert(s, k, v);
    if p >= 0 {
        lemma_key_pos_is(u, k, p);
        if k2 != k {
            let q = key_pos(s, k2);
            if q >= 0 {
                assert(q != p);
                assert forall|j: int| 0 <= j < q implies u[j].0 != k2 by {
                    if j == p {
                    } else {
                        assert(u[j] == s[j]);
                    }
                }
                lemma_key_pos_is(u, k2, q);
            } else {
                assert forall|j: int| 0 <= j < u.len() implies u[j].0 != k2 by {
                    if j != p {
                        assert(u[j] == s[j]);
                    }
                }
                lemma_key_pos_is(u, k2, -1);
            }
        }
    } else {
        assert forall|j: int| 0 <= j < s.len() implies u[j].0 != k by {
            assert(u[j] == s[j]);
        }
        lemma_key_pos_is(u, k, s.len() as int);
        if k2 != k {
            let q = key_pos(s, k2);
            if q >= 0 {
                assert forall|j: int| 0 <= j < q implies u[j].0 != k2 by {
                    assert(u[j] == s[j]);
                }
                lemma_key_pos_is(u, k2, q);
            } else {
                assert forall|j: int| 0 <= j < u.len() implies u[j].0 != k2 by {
                    if j < s.len() {
                        assert(u[j] == s[j]);
                    }
                }
                lemma_key_pos_is(u, k2, -1);
            }
        }
    }
}

/// Reading back a path right after assigning to it gives the assigned
/// value (the law of `Json::assign`).
pub proof fn assign_then_read(v: JVal, path: Seq<Seq<char>>, val: JVal)
    ensures
        jread(jassign(v, path, val), path) == val,
    decreases path.len(),
{
    if path.len() > 0 {
        let s = match v {
            JVal::Object(s) => s,
            _ => Seq::empty(),
        };
        let inner = match lookup(s, path[0]) {
            Some(x) => x,
            None => JVal::Null,
        };
        lemma_lookup_upsert(s, path[0], jassign(inner, path.drop_first(), val), path[0]);
        assign_then_read(inner, path.drop_first(), val);
    }
}

/// Assigning along a path leaves every other member of the top object as
/// it was.
pub proof fn assign_keeps_other_members(v: JVal, path: Seq<Seq<char>>, val: JVal, k: Seq<char>)
    requires
        path.len() > 0,
        k != path[0],
        v is Object || v is Null,
    ensures
        jget(jassign(v, path, val), k) == jget(v, k),
{
    let s = match v {
        JVal::Object(s) => s,
        _ => Seq::empty(),
    };
    let inner = match lookup(s, path[0]) {
        Some(x) => x,
        None => JVal::Null,
    };
    lemma_lookup_upsert(s, path[0], jassign(inner, path.drop_first(), val), k);
    if v is Null {
        assert(key_pos(Seq::<(Seq<char>, JVal)>::empty(), k) == -1);
    }
}

} // verus!
