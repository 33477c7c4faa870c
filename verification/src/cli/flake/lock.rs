//! Locking flake inputs: how `flake.lock` data changes as inputs are
//! prefetched, followed and merged with the locks of their own inputs.
use vstd::prelude::*;
use crate::json::{
    JVal, Json, members_deep, elems_deep, lemma_object_deep, lemma_array_deep, upsert, lookup,
    jget, jidx, jstr, jget_str, jassign, assignable, upsert_member,
};
use crate::text::{views, owned, cat, split_str, split_seq, text_eq, starts_with, has_prefix, substring, contains_text};
use crate::numtext::decimal;

verus! {

/// Options of `flake lock`.
pub struct LockArgs {
    /// Flake reference to lock.
    pub flake_ref: String,
    /// Do not write the lock file.
    pub dry_run: bool,
    /// Update all inputs.
    pub update_all: bool,
    /// Inputs to update.
    pub update_inputs: Vec<String>,
    /// Inputs whose URL is replaced, as (input, flake reference) pairs.
    pub override_inputs: Vec<(String, String)>,
}

/// An input declared in `flake.nix`.
pub struct FlakeInput {
    pub name: String,
    pub url: Option<String>,
    pub follows: Option<String>,
    pub flake: bool,
    /// Overrides `inputs.<this>.inputs.<name>.follows = <path>`, as
    /// (name, path) pairs; the first pair for a name counts.
    pub nested_follows: Vec<(String, String)>,
}

/// The first value paired with `k`.
pub open spec fn pair_lookup(s: Seq<(Seq<char>, Seq<char>)>, k: Seq<char>) -> Option<Seq<char>>
    decreases s.len(),
{
    if s.len() == 0 {
        None
    } else if s[0].0 == k {
        Some(s[0].1)
    } else {
        pair_lookup(s.drop_first(), k)
    }
}

/// The pairs of owned strings, as texts.
pub open spec fn pair_views(s: Seq<(String, String)>) -> Seq<(Seq<char>, Seq<char>)> {
    s.map_values(|p: (String, String)| (p.0@, p.1@))
}

/// The value paired with `k` in `s`.
pub fn find_pair<'a>(s: &'a Vec<(String, String)>, k: &str) -> (r: Option<&'a String>)
    ensures
        match r {
            Some(v) => pair_lookup(pair_views(s@), k@) == Some(v@),
            None => pair_lookup(pair_views(s@), k@).is_none(),
        },
{
    let n = s.len();
    let mut i: usize = 0;
    assert(pair_views(s@).skip(0) =~= pair_views(s@));
    while i < n
        invariant
            n == s@.len(),
            i <= n,
            pair_lookup(pair_views(s@), k@) == pair_lookup(pair_views(s@).skip(i as int), k@),
        decreases n - i,
    {
        assert(pair_views(s@).skip(i as int)[0] == (s@[i as int].0@, s@[i as int].1@));
        if text_eq(s[i].0.as_str(), k) {
            return Some(&s[i].1);
        }
        assert(pair_views(s@).skip(i as int).drop_first() =~= pair_views(s@).skip(i + 1));
        i = i + 1;
    }
    assert(pair_views(s@).skip(n as int) =~= Seq::empty());
    None
}

/// The lock data a new `flake.lock` starts from.
pub open spec fn default_lock_value() -> JVal {
    JVal::Object(
        seq![
            ("nodes"@, JVal::Object(seq![("root"@, JVal::Object(seq![("inputs"@, JVal::Object(Seq::empty()))]))])),
            ("root"@, JVal::Str("root"@)),
            ("version"@, JVal::UInt(7)),
        ],
    )
}

/// An object with the given members.
fn object(m: Vec<(String, Json)>) -> (r: Json)
    ensures
        r.deep() == JVal::Object(members_deep(m@)),
{
    proof { lemma_object_deep(m); }
    Json::Object(m)
}

/// An object with one member.
fn single(k: &str, v: Json) -> (r: Json)
    ensures
        r.deep() == JVal::Object(seq![(k@, v.deep())]),
{
    let ghost vd = v.deep();
    let mut m: Vec<(String, Json)> = Vec::new();
    m.push((owned(k), v));
    assert(members_deep(m@) =~= seq![(k@, vd)]);
    object(m)
}

/// The lock data a new `flake.lock` starts from.
pub fn default_lock_data() -> (r: Json)
    ensures
        r.deep() == default_lock_value(),
{
    let inputs = object(Vec::new());
    assert(members_deep(Seq::<(String, Json)>::empty()) =~= Seq::empty());
    let root = single("inputs", inputs);
    let nodes = single("root", root);
    let ghost nd = nodes.deep();
    let mut m: Vec<(String, Json)> = Vec::new();
    m.push((owned("nodes"), nodes));
    m.push((owned("root"), Json::string("root")));
    m.push((owned("version"), Json::UInt(7)));
    assert(members_deep(m@) =~= seq![
        ("nodes"@, nd),
        ("root"@, JVal::Str("root"@)),
        ("version"@, JVal::UInt(7)),
    ]);
    object(m)
}

/// `d["nodes"]["root"]["inputs"]`.
pub open spec fn root_inputs(d: JVal) -> JVal {
    jidx(jidx(jidx(d, "nodes"@), "root"@), "inputs"@)
}

/// The root node of the lock refers to an input called `name`.
pub open spec fn input_locked(d: JVal, name: Seq<char>) -> bool {
    jget(root_inputs(d), name) is Some
}

/// Whether the root of the lock data refers to an input called `name`.
pub fn is_input_locked(lock_data: &Json, name: &str) -> (r: bool)
    ensures
        r == input_locked(lock_data.deep(), name@),
{
    match lock_data.get("nodes") {
        Some(n) => match n.get("root") {
            Some(r) => match r.get("inputs") {
                Some(i) => i.get(name).is_some(),
                None => false,
            },
            None => false,
        },
        None => false,
    }
}

/// The path `nodes.root.inputs.<name>`.
pub open spec fn root_input_path(name: Seq<char>) -> Seq<Seq<char>> {
    seq!["nodes"@, "root"@, "inputs"@, name]
}

fn path_of(a: &str, b: &str, c: &str, d: &str) -> (r: Vec<String>)
    ensures
        views(r@) == seq![a@, b@, c@, d@],
{
    let mut r: Vec<String> = Vec::new();
    r.push(owned(a));
    r.push(owned(b));
    r.push(owned(c));
    r.push(owned(d));
    assert(views(r@) =~= seq![a@, b@, c@, d@]);
    r
}

fn path2(a: &str, b: &str) -> (r: Vec<String>)
    ensures
        views(r@) == seq![a@, b@],
{
    let mut r: Vec<String> = Vec::new();
    r.push(owned(a));
    r.push(owned(b));
    assert(views(r@) =~= seq![a@, b@]);
    r
}

/// The texts as an array of strings.
pub open spec fn str_array(s: Seq<Seq<char>>) -> JVal {
    JVal::Array(s.map_values(|t: Seq<char>| JVal::Str(t)))
}

/// An array of the strings `parts`.
fn strings_array(parts: Vec<String>) -> (r: Json)
    ensures
        r.deep() == str_array(views(parts@)),
{
    let mut out: Vec<Json> = Vec::new();
    let n = parts.len();
    for i in 0..n
        invariant
            n == parts@.len(),
            out@.len() == i,
            forall|j: int| 0 <= j < i ==> (#[trigger] out@[j]).deep() == JVal::Str(parts@[j]@),
    {
        out.push(Json::Str(parts[i].clone()));
    }
    proof {
        lemma_array_deep(out);
        assert(elems_deep(out@) =~= views(parts@).map_values(|t: Seq<char>| JVal::Str(t)));
    }
    Json::Array(out)
}

/// Records that input `name` follows the input path `follows`
/// (`a/b` becomes `["a", "b"]`).
pub fn update_follows_in_lock(lock_data: &mut Json, name: &str, follows: &str)
    requires
        assignable(old(lock_data).deep(), root_input_path(name@)),
    ensures
        final(lock_data).deep() == jassign(
            old(lock_data).deep(),
            root_input_path(name@),
            str_array(split_seq(follows@, "/"@)),
        ),
{
    proof { reveal_strlit("/"); }
    let parts = split_str(follows, "/");
    let value = strings_array(parts);
    let path = path_of("nodes", "root", "inputs", name);
    lock_data.assign(&path, value);
}

/// There is a node called `n` in the lock data.
pub open spec fn has_node(d: JVal, n: Seq<char>) -> bool {
    jget(jidx(d, "nodes"@), n) is Some
}

/// `base_i`.
pub open spec fn suffixed(base: Seq<char>, i: nat) -> Seq<char> {
    base + "_"@ + decimal(i)
}

/// The first of `base_i`, `base_{i+1}`, ..., `base_99` that names no node,
/// else `base_transitive`.
pub open spec fn first_free_name(d: JVal, base: Seq<char>, i: nat) -> Seq<char>
    decreases 100 - i,
{
    if i >= 100 {
        base + "_transitive"@
    } else if !has_node(d, suffixed(base, i)) {
        suffixed(base, i)
    } else {
        first_free_name(d, base, i + 1)
    }
}

/// The name under which a node first called `base` is added to the lock.
pub open spec fn unique_node_name(d: JVal, base: Seq<char>) -> Seq<char> {
    if has_node(d, base) {
        first_free_name(d, base, 2)
    } else {
        base
    }
}

fn has_node_exec(lock_data: &Json, n: &str) -> (r: bool)
    ensures
        r == has_node(lock_data.deep(), n@),
{
    match lock_data.get("nodes") {
        Some(nodes) => nodes.get(n).is_some(),
        None => false,
    }
}

/// A node name not yet used in the lock: `base`, or else `base_2`, `base_3`,
/// ... up to `base_99`, or else `base_transitive`.
pub fn find_unique_node_name(lock_data: &Json, base_name: &str) -> (r: String)
    ensures
        r@ == unique_node_name(lock_data.deep(), base_name@),
{
    if !has_node_exec(lock_data, base_name) {
        return owned(base_name);
    }
    let mut i: u64 = 2;
    while i < 100
        invariant
            2 <= i <= 100,
            has_node(lock_data.deep(), base_name@),
            first_free_name(lock_data.deep(), base_name@, 2) == first_free_name(
                lock_data.deep(),
                base_name@,
                i as nat,
            ),
        decreases 100 - i,
    {
        let mut candidate = cat(base_name, "_");
        crate::numtext::push_decimal(&mut candidate, i);
        if !has_node_exec(lock_data, candidate.as_str()) {
            return candidate;
        }
        i = i + 1;
    }
    cat(base_name, "_transitive")
}

/// Whether `url` is a file system path rather than a flake URL.
pub open spec fn bare_path(url: Seq<char>) -> bool {
    has_prefix(url, "/"@) || has_prefix(url, "./"@) || has_prefix(url, "../"@)
}

/// Whether `url` is a bare file system path (`/...`, `./...` or `../...`).
pub fn is_bare_path(url: &str) -> (r: bool)
    ensures
        r == bare_path(url@),
{
    starts_with(url, "/") || starts_with(url, "./") || starts_with(url, "../")
}

/// The NAR hash a prefetch reported (`hash`, else `narHash`).
pub open spec fn prefetch_hash(p: JVal) -> Option<Seq<char>> {
    match jget_str(p, "hash"@) {
        Some(h) => Some(h),
        None => jget_str(p, "narHash"@),
    }
}

/// `s` with `p` removed from its start as many times as it is there.
pub open spec fn strip_all(s: Seq<char>, p: Seq<char>) -> Seq<char>
    decreases s.len(),
{
    if p.len() > 0 && has_prefix(s, p) {
        strip_all(s.skip(p.len() as int), p)
    } else {
        s
    }
}

/// An object with the members `(k, v)` in this order, assigned one by one.
pub open spec fn obj2(k1: Seq<char>, v1: JVal, k2: Seq<char>, v2: JVal) -> JVal {
    JVal::Object(upsert(seq![(k1, v1)], k2, v2))
}

/// `obj` with member `k` set to `v`.
pub open spec fn with_member(obj: JVal, k: Seq<char>, v: JVal) -> JVal {
    jassign(obj, seq![k], v)
}

pub proof fn lemma_with_member(obj: JVal, k: Seq<char>, v: JVal)
    ensures
        with_member(obj, k, v) == JVal::Object(
            upsert(
                match obj {
                    JVal::Object(s) => s,
                    _ => Seq::empty(),
                },
                k,
                v,
            ),
        ),
{
    assert(seq![k].drop_first() =~= Seq::<Seq<char>>::empty());
    let s = match obj {
        JVal::Object(s) => s,
        _ => Seq::empty(),
    };
    let inner = match lookup(s, k) {
        Some(x) => x,
        None => JVal::Null,
    };
    assert(jassign(inner, Seq::<Seq<char>>::empty(), v) == v);
    assert(seq![k][0] == k);
}

/// Parsing a URL for the lock panics: the prefetch reported a hash and a
/// `locked` value that is neither an object nor null and has no `narHash`.
pub open spec fn url_lock_panics(url: Seq<char>, p: JVal) -> bool {
    &&& !bare_path(url)
    &&& jget(p, "locked"@) is Some
    &&& jget(p, "original"@) is Some
    &&& prefetch_hash(p) is Some
    &&& jget(jidx(p, "locked"@), "narHash"@) is None
    &&& !(jidx(p, "locked"@) is Null || jidx(p, "locked"@) is Object)
}

/// Whether building the lock entry for `url` from `prefetch_result` fails
/// (see `url_lock_panics`).
pub fn url_lock_fails(url: &str, prefetch_result: &Json) -> (r: bool)
    ensures
        r == url_lock_panics(url@, prefetch_result.deep()),
{
    if is_bare_path(url) {
        return false;
    }
    let hash = prefetch_hash_exec(prefetch_result);
    if hash.is_none() {
        return false;
    }
    if prefetch_result.get("original").is_none() {
        return false;
    }
    match prefetch_result.get("locked") {
        None => false,
        Some(l) => {
            if l.get("narHash").is_some() {
                return false;
            }
            match l {
                Json::Null => false,
                Json::Object(_) => false,
                _ => true,
            }
        },
    }
}

/// The entry for a bare path: recorded as a `path` input whatever the
/// prefetch made of it, with the reported hash and modification time.
pub open spec fn bare_path_entry(url: Seq<char>, p: JVal) -> (Seq<char>, JVal, JVal) {
    let base = obj2("type"@, JVal::Str("path"@), "path"@, JVal::Str(url));
    let l1 = match prefetch_hash(p) {
        Some(h) => with_member(base, "narHash"@, JVal::Str(h)),
        None => base,
    };
    let l2 = match jget(jidx(p, "locked"@), "lastModified"@) {
        Some(lm) => with_member(l1, "lastModified"@, lm),
        None => l1,
    };
    ("path"@, base, l2)
}

/// The entry taken from the prefetch's own `locked` and `original`, with the
/// hash copied into `locked` when it has none.
pub open spec fn prefetched_entry(p: JVal) -> (Seq<char>, JVal, JVal) {
    let locked = jidx(p, "locked"@);
    let ty = match jstr(jidx(locked, "type"@)) {
        Some(t) => t,
        None => "unknown"@,
    };
    let locked2 = match prefetch_hash(p) {
        Some(h) => if jget(locked, "narHash"@) is None {
            with_member(locked, "narHash"@, JVal::Str(h))
        } else {
            locked
        },
        None => locked,
    };
    (ty, jidx(p, "original"@), locked2)
}

/// The entry built from the URL itself: a `github:owner/repo[/ref]` input,
/// else an indirect one.
pub open spec fn manual_entry(url: Seq<char>, p: JVal) -> (Seq<char>, JVal, JVal) {
    let h = match prefetch_hash(p) {
        Some(h) => h,
        None => Seq::empty(),
    };
    let parts = split_seq(strip_all(url, "github:"@), "/"@);
    if has_prefix(url, "github:"@) && parts.len() >= 2 {
        let o1 = JVal::Object(
            seq![
                ("type"@, JVal::Str("github"@)),
                ("owner"@, JVal::Str(parts[0])),
                ("repo"@, JVal::Str(parts[1])),
            ],
        );
        let original = if parts.len() >= 3 {
            with_member(o1, "ref"@, JVal::Str(parts[2]))
        } else {
            o1
        };
        let locked = JVal::Object(
            seq![
                ("type"@, JVal::Str("github"@)),
                ("owner"@, JVal::Str(parts[0])),
                ("repo"@, JVal::Str(parts[1])),
                ("narHash"@, JVal::Str(h)),
            ],
        );
        ("github"@, original, locked)
    } else {
        (
            "indirect"@,
            JVal::Object(seq![("type"@, JVal::Str("indirect"@)), ("id"@, JVal::Str(url))]),
            JVal::Object(
                seq![
                    ("type"@, JVal::Str("indirect"@)),
                    ("id"@, JVal::Str(url)),
                    ("narHash"@, JVal::Str(h)),
                ],
            ),
        )
    }
}

/// The (type, original, locked) entries recorded for `url` given what its
/// prefetch reported.
pub open spec fn url_lock_entry(url: Seq<char>, p: JVal) -> (Seq<char>, JVal, JVal) {
    if bare_path(url) {
        bare_path_entry(url, p)
    } else if jget(p, "locked"@) is Some && jget(p, "original"@) is Some {
        prefetched_entry(p)
    } else {
        manual_entry(url, p)
    }
}

/// The NAR hash a prefetch reported.
fn prefetch_hash_exec(p: &Json) -> (r: Option<String>)
    ensures
        match r {
            Some(h) => prefetch_hash(p.deep()) == Some(h@),
            None => prefetch_hash(p.deep()).is_none(),
        },
{
    match p.get_str("hash") {
        Some(h) => Some(h.clone()),
        None => match p.get_str("narHash") {
            Some(h) => Some(h.clone()),
            None => None,
        },
    }
}

/// Sets member `k` of the object or null `obj` to `v`.
fn set_member(obj: &mut Json, k: &str, v: Json)
    requires
        old(obj).deep() is Null || old(obj).deep() is Object,
    ensures
        final(obj).deep() == with_member(old(obj).deep(), k@, v.deep()),
{
    let mut path: Vec<String> = Vec::new();
    path.push(owned(k));
    assert(views(path@) =~= seq![k@]);
    assert(seq![k@].drop_first() =~= Seq::<Seq<char>>::empty());
    assert(assignable(jidx(obj.deep(), k@), Seq::<Seq<char>>::empty()));
    assert(assignable(obj.deep(), seq![k@]));
    obj.assign(&path, v);
}

/// `s` with every leading `p` removed.
fn strip_all_exec(s: &str, p: &str) -> (r: String)
    requires
        p@.len() > 0,
    ensures
        r@ == strip_all(s@, p@),
{
    let mut cur = owned(s);
    let n = p.unicode_len();
    loop
        invariant
            n == p@.len(),
            n > 0,
            strip_all(cur@, p@) == strip_all(s@, p@),
        decreases cur@.len(),
    {
        if starts_with(cur.as_str(), p) {
            let len = cur.as_str().unicode_len();
            let next = substring(cur.as_str(), n, len);
            assert(next@ == cur@.skip(n as int));
            cur = next;
        } else {
            return cur;
        }
    }
}

fn bare_path_lock(url: &str, prefetch_result: &Json, hash: Option<String>) -> (r: (String, Json, Json))
    requires
        match hash {
            Some(h) => prefetch_hash(prefetch_result.deep()) == Some(h@),
            None => prefetch_hash(prefetch_result.deep()).is_none(),
        },
    ensures
        (r.0@, r.1.deep(), r.2.deep()) == bare_path_entry(url@, prefetch_result.deep()),
{
    let mut base_m: Vec<(String, Json)> = Vec::new();
    base_m.push((owned("type"), Json::string("path")));
    assert(members_deep(base_m@) =~= seq![("type"@, JVal::Str("path"@))]);
    upsert_member(&mut base_m, owned("path"), Json::string(url));
    let original = object(base_m);
    let mut locked = original.deep_clone();
    match hash {
        Some(h) => set_member(&mut locked, "narHash", Json::Str(h)),
        None => {},
    }
    match prefetch_result.get("locked") {
        Some(l) => match l.get("lastModified") {
            Some(lm) => set_member(&mut locked, "lastModified", lm.deep_clone()),
            None => {},
        },
        None => {},
    }
    (owned("path"), original, locked)
}

fn prefetched_lock(prefetch_result: &Json, hash: Option<String>) -> (r: (String, Json, Json))
    requires
        match hash {
            Some(h) => prefetch_hash(prefetch_result.deep()) == Some(h@),
            None => prefetch_hash(prefetch_result.deep()).is_none(),
        },
        jget(prefetch_result.deep(), "locked"@) is Some,
        jget(prefetch_result.deep(), "original"@) is Some,
        hash is Some && jget(jidx(prefetch_result.deep(), "locked"@), "narHash"@) is None ==> (
        jidx(prefetch_result.deep(), "locked"@) is Null || jidx(prefetch_result.deep(), "locked"@) is Object),
    ensures
        (r.0@, r.1.deep(), r.2.deep()) == prefetched_entry(prefetch_result.deep()),
{
    let mut locked = prefetch_result.get("locked").unwrap().deep_clone();
    let original = prefetch_result.get("original").unwrap().deep_clone();
    let lock_type = match locked.get("type") {
        Some(t) => match t.as_str() {
            Some(s) => s.clone(),
            None => owned("unknown"),
        },
        None => owned("unknown"),
    };
    match hash {
        Some(h) => {
            if locked.get("narHash").is_none() {
                set_member(&mut locked, "narHash", Json::Str(h));
            }
        },
        None => {},
    }
    (lock_type, original, locked)
}

fn manual_lock(url: &str, prefetch_result: &Json, hash: Option<String>) -> (r: (String, Json, Json))
    requires
        match hash {
            Some(h) => prefetch_hash(prefetch_result.deep()) == Some(h@),
            None => prefetch_hash(prefetch_result.deep()).is_none(),
        },
    ensures
        (r.0@, r.1.deep(), r.2.deep()) == manual_entry(url@, prefetch_result.deep()),
{
    let h = match hash {
        Some(h) => h,
        None => String::new(),
    };
    let ghost hv = h@;
    proof { reveal_strlit("github:"); }
    let stripped = strip_all_exec(url, "github:");
    proof { reveal_strlit("/"); }
    let parts = split_str(stripped.as_str(), "/");
    if starts_with(url, "github:") && parts.len() >= 2 {
        let owner = parts[0].clone();
        let repo = parts[1].clone();
        let mut om: Vec<(String, Json)> = Vec::new();
        om.push((owned("type"), Json::string("github")));
        om.push((owned("owner"), Json::Str(owner.clone())));
        om.push((owned("repo"), Json::Str(repo.clone())));
        assert(members_deep(om@) =~= seq![
            ("type"@, JVal::Str("github"@)),
            ("owner"@, JVal::Str(owner@)),
            ("repo"@, JVal::Str(repo@)),
        ]);
        let mut original = object(om);
        if parts.len() >= 3 {
            set_member(&mut original, "ref", Json::Str(parts[2].clone()));
        }
        let mut lm: Vec<(String, Json)> = Vec::new();
        lm.push((owned("type"), Json::string("github")));
        lm.push((owned("owner"), Json::Str(owner)));
        lm.push((owned("repo"), Json::Str(repo)));
        lm.push((owned("narHash"), Json::Str(h)));
        assert(members_deep(lm@) =~= seq![
            ("type"@, JVal::Str("github"@)),
            ("owner"@, JVal::Str(parts@[0]@)),
            ("repo"@, JVal::Str(parts@[1]@)),
            ("narHash"@, JVal::Str(hv)),
        ]);
        let locked = object(lm);
        return (owned("github"), original, locked);
    }
    let mut om: Vec<(String, Json)> = Vec::new();
    om.push((owned("type"), Json::string("indirect")));
    om.push((owned("id"), Json::string(url)));
    assert(members_deep(om@) =~= seq![("type"@, JVal::Str("indirect"@)), ("id"@, JVal::Str(url@))]);
    let mut lm: Vec<(String, Json)> = Vec::new();
    lm.push((owned("type"), Json::string("indirect")));
    lm.push((owned("id"), Json::string(url)));
    lm.push((owned("narHash"), Json::Str(h)));
    assert(members_deep(lm@) =~= seq![
        ("type"@, JVal::Str("indirect"@)),
        ("id"@, JVal::Str(url@)),
        ("narHash"@, JVal::Str(hv)),
    ]);
    (owned("indirect"), object(om), object(lm))
}

/// The (type, original, locked) entries recorded for `url`, from what
/// `nix flake prefetch --json` reported for it.
pub fn parse_url_for_lock(url: &str, prefetch_result: &Json) -> (r: (String, Json, Json))
    requires
        !url_lock_panics(url@, prefetch_result.deep()),
    ensures
        (r.0@, r.1.deep(), r.2.deep()) == url_lock_entry(url@, prefetch_result.deep()),
{
    let hash = prefetch_hash_exec(prefetch_result);
    if is_bare_path(url) {
        return bare_path_lock(url, prefetch_result, hash);
    }
    if prefetch_result.get("locked").is_some() && prefetch_result.get("original").is_some() {
        return prefetched_lock(prefetch_result, hash);
    }
    manual_lock(url, prefetch_result, hash)
}

/// The lock data may get new nodes: it and its `nodes` are objects or null.
pub open spec fn nodes_writable(d: JVal) -> bool {
    &&& (d is Null || d is Object)
    &&& (jidx(d, "nodes"@) is Null || jidx(d, "nodes"@) is Object)
}

/// Whether the lock data can take new nodes (see `nodes_writable`).
pub fn nodes_accept_new(lock_data: &Json) -> (r: bool)
    ensures
        r == nodes_writable(lock_data.deep()),
{
    match lock_data {
        Json::Null => true,
        Json::Object(_) => match lock_data.get("nodes") {
            None => true,
            Some(n) => match n {
                Json::Null => true,
                Json::Object(_) => true,
                _ => false,
            },
        },
        _ => false,
    }
}

pub proof fn lemma_nodes_writable(d: JVal, k: Seq<char>, v: JVal)
    requires
        nodes_writable(d),
    ensures
        assignable(d, seq!["nodes"@, k]),
        nodes_writable(jassign(d, seq!["nodes"@, k], v)),
{
    let p = seq!["nodes"@, k];
    assert(p.drop_first() =~= seq![k]);
    assert(p.drop_first().drop_first() =~= Seq::<Seq<char>>::empty());
    assert(assignable(jidx(jidx(d, "nodes"@), k), Seq::<Seq<char>>::empty()));
    assert(assignable(jidx(d, "nodes"@), seq![k]));
    let s = match d {
        JVal::Object(s) => s,
        _ => Seq::empty(),
    };
    let inner = match lookup(s, "nodes"@) {
        Some(x) => x,
        None => JVal::Null,
    };
    assert(jidx(d, "nodes"@) == inner);
    assert(jassign(inner, seq![k], v) is Object);
    let r = jassign(d, p, v);
    crate::json::lemma_key_pos(s, "nodes"@);
    crate::json::lemma_key_pos(upsert(s, "nodes"@, jassign(inner, p.drop_first(), v)), "nodes"@);
    let s2 = upsert(s, "nodes"@, jassign(inner, p.drop_first(), v));
    let kp = crate::json::key_pos(s, "nodes"@);
    if kp >= 0 {
        crate::json::lemma_key_pos_is(s2, "nodes"@, kp);
    } else {
        assert forall|j: int| 0 <= j < s.len() implies s2[j].0 != "nodes"@ by {
            assert(s2[j] == s[j]);
        }
        crate::json::lemma_key_pos_is(s2, "nodes"@, s.len() as int);
    }
    assert(jidx(r, "nodes"@) == jassign(inner, p.drop_first(), v));
}

/// A reference `v` to a node renamed by `nm` follows the rename.
pub open spec fn remap_ref(v: JVal, nm: Seq<(Seq<char>, JVal)>) -> JVal {
    match v {
        JVal::Str(r) => match lookup(nm, r) {
            Some(m) => m,
            None => v,
        },
        _ => v,
    }
}

/// Input references `ms` with renamed nodes followed.
pub open spec fn remap_members(ms: Seq<(Seq<char>, JVal)>, nm: Seq<(Seq<char>, JVal)>) -> Seq<(Seq<char>, JVal)> {
    Seq::new(ms.len(), |i: int| (ms[i].0, remap_ref(ms[i].1, nm)))
}

/// A node whose `inputs` object refers to renamed nodes under their new names.
pub open spec fn remap_node(node: JVal, nm: Seq<(Seq<char>, JVal)>) -> JVal {
    match node {
        JVal::Object(s) => match lookup(s, "inputs"@) {
            Some(JVal::Object(ms)) => JVal::Object(
                upsert(s, "inputs"@, JVal::Object(remap_members(ms, nm))),
            ),
            _ => node,
        },
        _ => node,
    }
}

/// One member of the input's root inputs, in the first pass: a node it
/// refers to is copied into the lock under a fresh name (unless a follows
/// override replaces it), and the rename is remembered.
pub open spec fn first_pass_step(
    st: (JVal, Seq<(Seq<char>, JVal)>),
    e: (Seq<char>, JVal),
    input_nodes: Seq<(Seq<char>, JVal)>,
    nested: Seq<(Seq<char>, Seq<char>)>,
) -> (JVal, Seq<(Seq<char>, JVal)>) {
    if pair_lookup(nested, e.0) is Some {
        st
    } else {
        match e.1 {
            JVal::Str(nn) => match lookup(input_nodes, nn) {
                Some(tn) => {
                    let f = unique_node_name(st.0, nn);
                    let nm = upsert(st.1, nn, JVal::Str(f));
                    (jassign(st.0, seq!["nodes"@, f], remap_node(tn, nm)), nm)
                },
                None => st,
            },
            _ => st,
        }
    }
}

/// The lock data and the renames after the first pass over `ii`.
pub open spec fn first_pass(
    lock: JVal,
    ii: Seq<(Seq<char>, JVal)>,
    input_nodes: Seq<(Seq<char>, JVal)>,
    nested: Seq<(Seq<char>, Seq<char>)>,
) -> (JVal, Seq<(Seq<char>, JVal)>) {
    ii.fold_left(
        (lock, Seq::empty()),
        |st: (JVal, Seq<(Seq<char>, JVal)>), e: (Seq<char>, JVal)|
            first_pass_step(st, e, input_nodes, nested),
    )
}

/// What the input's own `inputs` entry for member `e` becomes: a follows
/// override as a path array, a node reference under its new name, a follows
/// array unchanged; anything else is dropped.
pub open spec fn mapped_ref(
    e: (Seq<char>, JVal),
    nm: Seq<(Seq<char>, JVal)>,
    nested: Seq<(Seq<char>, Seq<char>)>,
) -> Option<JVal> {
    match pair_lookup(nested, e.0) {
        Some(fp) => Some(str_array(split_seq(fp, "/"@))),
        None => match e.1 {
            JVal::Str(nn) => Some(
                match lookup(nm, nn) {
                    Some(m) => m,
                    None => JVal::Str(nn),
                },
            ),
            JVal::Array(_) => Some(e.1),
            _ => None,
        },
    }
}

/// The input's own `inputs` object after the second pass over `ii`.
pub open spec fn second_pass(
    ii: Seq<(Seq<char>, JVal)>,
    nm: Seq<(Seq<char>, JVal)>,
    nested: Seq<(Seq<char>, Seq<char>)>,
) -> Seq<(Seq<char>, JVal)> {
    ii.fold_left(
        Seq::<(Seq<char>, JVal)>::empty(),
        |acc: Seq<(Seq<char>, JVal)>, e: (Seq<char>, JVal)|
            match mapped_ref(e, nm, nested) {
                Some(v) => upsert(acc, e.0, v),
                None => acc,
            },
    )
}

/// The lock data and the input's node after merging the input's own locks.
pub open spec fn merge_result(
    lock: JVal,
    node: JVal,
    locks: JVal,
    nested: Seq<(Seq<char>, Seq<char>)>,
) -> (JVal, JVal) {
    match jget(locks, "nodes"@) {
        Some(JVal::Object(input_nodes)) => match lookup(input_nodes, "root"@) {
            Some(root) => match jget(root, "inputs"@) {
                Some(JVal::Object(ii)) => if ii.len() == 0 {
                    (lock, node)
                } else {
                    let st = first_pass(lock, ii, input_nodes, nested);
                    let mapped = second_pass(ii, st.1, nested);
                    (
                        st.0,
                        if mapped.len() > 0 {
                            with_member(node, "inputs"@, JVal::Object(mapped))
                        } else {
                            node
                        },
                    )
                },
                _ => (lock, node),
            },
            None => (lock, node),
        },
        _ => (lock, node),
    }
}

/// A copy of `node` whose `inputs` refer to renamed nodes by their new names.
fn remap_node_exec(node: &Json, nm: &Vec<(String, Json)>) -> (r: Json)
    ensures
        r.deep() == remap_node(node.deep(), members_deep(nm@)),
{
    let mut out = node.deep_clone();
    let ins = match node.get("inputs") {
        Some(i) => i,
        None => return out,
    };
    let ms = match ins.as_object() {
        Some(ms) => ms,
        None => return out,
    };
    let ghost nmv = members_deep(nm@);
    let mut nms: Vec<(String, Json)> = Vec::new();
    let n = ms.len();
    for i in 0..n
        invariant
            n == ms@.len(),
            nmv == members_deep(nm@),
            nms@.len() == i,
            forall|j: int|
                0 <= j < i ==> (#[trigger] nms@[j]).0@ == ms@[j].0@ && nms@[j].1.deep()
                    == remap_ref(ms@[j].1.deep(), nmv),
    {
        let v = &ms[i].1;
        let nv = match v.as_str() {
            Some(r) => match crate::json::find_member(nm, r.as_str()) {
                Some(k) => {
                    proof { crate::json::lemma_key_pos(nmv, r@); }
                    nm[k].1.deep_clone()
                },
                None => v.deep_clone(),
            },
            None => v.deep_clone(),
        };
        nms.push((ms[i].0.clone(), nv));
    }
    assert(members_deep(nms@) =~= remap_members(members_deep(ms@), nmv));
    match node {
        Json::Object(_) => {},
        _ => return out,
    }
    proof {
        crate::json::lemma_object_deep(nms);
        lemma_with_member(out.deep(), "inputs"@, Json::Object(nms).deep());
    }
    set_member(&mut out, "inputs", Json::Object(nms));
    out
}

/// Merges the locks of an input's own inputs (`input_locks`, from
/// `nix flake metadata`) into the lock data: each node the input's root refers
/// to is added under a name not yet used, references between them follow the
/// renames, and `input_node` gets an `inputs` object pointing at them, with
/// `nested_follows` overrides written as follows paths.
pub fn merge_transitive_locks(
    lock_data: &mut Json,
    input_name: &str,
    input_node: &mut Json,
    input_locks: &Json,
    nested_follows: &Vec<(String, String)>,
)
    requires
        nodes_writable(old(lock_data).deep()),
        old(input_node).deep() is Null || old(input_node).deep() is Object,
    ensures
        (final(lock_data).deep(), final(input_node).deep()) == merge_result(
            old(lock_data).deep(),
            old(input_node).deep(),
            input_locks.deep(),
            pair_views(nested_follows@),
        ),
        nodes_writable(final(lock_data).deep()),
{
    let ghost nested = pair_views(nested_follows@);
    let input_nodes = match input_locks.get("nodes") {
        Some(n) => match n.as_object() {
            Some(o) => o,
            None => return,
        },
        None => return,
    };
    let ghost inv = members_deep(input_nodes@);
    let input_root = match crate::json::find_member(input_nodes, "root") {
        Some(k) => {
            proof { crate::json::lemma_key_pos(inv, "root"@); }
            &input_nodes[k].1
        },
        None => return,
    };
    let input_inputs = match input_root.get("inputs") {
        Some(i) => match i.as_object() {
            Some(o) => o,
            None => return,
        },
        None => return,
    };
    let ghost ii = members_deep(input_inputs@);
    if input_inputs.len() == 0 {
        return;
    }
    let ghost lock0 = lock_data.deep();
    let mut name_map: Vec<(String, Json)> = Vec::new();
    let n = input_inputs.len();
    assert(ii.take(0) =~= Seq::<(Seq<char>, JVal)>::empty());
    assert(members_deep(name_map@) =~= Seq::<(Seq<char>, JVal)>::empty());
    for i in 0..n
        invariant
            n == input_inputs@.len(),
            ii == members_deep(input_inputs@),
            inv == members_deep(input_nodes@),
            nested == pair_views(nested_follows@),
            nodes_writable(lock_data.deep()),
            (lock_data.deep(), members_deep(name_map@)) == first_pass(lock0, ii.take(i as int), inv, nested),
    {
        proof {
            assert(ii.take(i + 1).drop_last() =~= ii.take(i as int));
            assert(ii.take(i + 1).last() == ii[i as int]);
        }
        let trans_name = &input_inputs[i].0;
        let trans_ref = &input_inputs[i].1;
        if find_pair(nested_follows, trans_name.as_str()).is_none() {
            match trans_ref.as_str() {
                Some(node_name) => {
                    match crate::json::find_member(input_nodes, node_name.as_str()) {
                        Some(k) => {
                            proof { crate::json::lemma_key_pos(inv, node_name@); }
                            let trans_node = &input_nodes[k].1;
                            let final_name = find_unique_node_name(lock_data, node_name.as_str());
                            crate::json::upsert_member(&mut name_map, node_name.clone(), Json::Str(final_name.clone()));
                            let cloned = remap_node_exec(trans_node, &name_map);
                            let path = path2("nodes", final_name.as_str());
                            proof { lemma_nodes_writable(lock_data.deep(), final_name@, cloned.deep()); }
                            lock_data.assign(&path, cloned);
                        },
                        None => {},
                    }
                },
                None => {},
            }
        }
    }
    assert(ii.take(n as int) =~= ii);
    let ghost nmv = members_deep(name_map@);
    let mut mapped: Vec<(String, Json)> = Vec::new();
    assert(members_deep(mapped@) =~= Seq::<(Seq<char>, JVal)>::empty());
    for i in 0..n
        invariant
            n == input_inputs@.len(),
            ii == members_deep(input_inputs@),
            nested == pair_views(nested_follows@),
            nmv == members_deep(name_map@),
            members_deep(mapped@) == second_pass(ii.take(i as int), nmv, nested),
    {
        proof {
            assert(ii.take(i + 1).drop_last() =~= ii.take(i as int));
            assert(ii.take(i + 1).last() == ii[i as int]);
        }
        let trans_name = &input_inputs[i].0;
        let trans_ref = &input_inputs[i].1;
        match find_pair(nested_follows, trans_name.as_str()) {
            Some(fp) => {
                proof { reveal_strlit("/"); }
                let parts = split_str(fp.as_str(), "/");
                let arr = strings_array(parts);
                crate::json::upsert_member(&mut mapped, trans_name.clone(), arr);
            },
            None => {
                match trans_ref.as_str() {
                    Some(node_name) => {
                        let v = match crate::json::find_member(&name_map, node_name.as_str()) {
                            Some(k) => {
                                proof { crate::json::lemma_key_pos(nmv, node_name@); }
                                name_map[k].1.deep_clone()
                            },
                            None => Json::Str(node_name.clone()),
                        };
                        crate::json::upsert_member(&mut mapped, trans_name.clone(), v);
                    },
                    None => {
                        match trans_ref.as_array() {
                            Some(_) => {
                                crate::json::upsert_member(&mut mapped, trans_name.clone(), trans_ref.deep_clone());
                            },
                            None => {},
                        }
                    },
                }
            },
        }
    }
    assert(ii.take(n as int) =~= ii);
    if mapped.len() > 0 {
        proof { crate::json::lemma_object_deep(mapped); }
        set_member(input_node, "inputs", Json::Object(mapped));
    }
}

/// The node recorded for an input: its `locked` and `original` entries, and
/// `flake: false` for inputs that are not flakes.
pub open spec fn input_node_value(url: Seq<char>, info: JVal, is_flake: bool) -> JVal {
    let e = url_lock_entry(url, info);
    let n0 = JVal::Object(seq![("locked"@, e.2), ("original"@, e.1)]);
    if !is_flake {
        with_member(n0, "flake"@, JVal::Bool(false))
    } else {
        n0
    }
}

/// The lock data and the input's node after merging the input's own locks,
/// when it is a flake whose metadata reports them.
pub open spec fn merged_with_metadata(
    lock: JVal,
    node: JVal,
    is_flake: bool,
    nested: Seq<(Seq<char>, Seq<char>)>,
    metadata: Option<JVal>,
) -> (JVal, JVal) {
    if is_flake {
        match metadata {
            Some(m) => match jget(m, "locks"@) {
                Some(locks) => merge_result(lock, node, locks, nested),
                None => (lock, node),
            },
            None => (lock, node),
        }
    } else {
        (lock, node)
    }
}

/// The lock data once the input's node is stored under its name, before the
/// root refers to it.
pub open spec fn lock_with_input_node(
    lock: JVal,
    name: Seq<char>,
    url: Seq<char>,
    info: JVal,
    is_flake: bool,
    nested: Seq<(Seq<char>, Seq<char>)>,
    metadata: Option<JVal>,
) -> JVal {
    let m = merged_with_metadata(lock, input_node_value(url, info, is_flake), is_flake, nested, metadata);
    jassign(m.0, seq!["nodes"@, name], m.1)
}

/// The lock data after locking input `name` at `url`.
pub open spec fn lock_with_input(
    lock: JVal,
    name: Seq<char>,
    url: Seq<char>,
    info: JVal,
    is_flake: bool,
    nested: Seq<(Seq<char>, Seq<char>)>,
    metadata: Option<JVal>,
) -> JVal {
    jassign(
        lock_with_input_node(lock, name, url, info, is_flake, nested, metadata),
        root_input_path(name),
        JVal::Str(name),
    )
}

/// Locking input `name` does not panic: the URL entry can be built, nodes can
/// be added, and the root's `inputs` can refer to the new node.
pub open spec fn input_lock_ok(
    lock: JVal,
    name: Seq<char>,
    url: Seq<char>,
    info: JVal,
    is_flake: bool,
    nested: Seq<(Seq<char>, Seq<char>)>,
    metadata: Option<JVal>,
) -> bool {
    &&& !url_lock_panics(url, info)
    &&& nodes_writable(lock)
    &&& assignable(
        lock_with_input_node(lock, name, url, info, is_flake, nested, metadata),
        root_input_path(name),
    )
}

/// Whether the root of the lock data can refer to input `name` (see
/// `assignable`).
pub fn root_can_refer_to(lock_data: &Json, name: &str) -> (r: bool)
    ensures
        r == assignable(lock_data.deep(), root_input_path(name@)),
{
    let rpath = path_of("nodes", "root", "inputs", name);
    lock_data.assignable_along(&rpath)
}

/// Stores the node of input `name`, locked at `url` with what its prefetch
/// reported (`locked_info`), together with the nodes of its own inputs when
/// it is a flake whose `nix flake metadata` output (`metadata`) lists locks.
pub fn store_input_node(
    lock_data: &mut Json,
    name: &str,
    url: &str,
    locked_info: &Json,
    is_flake: bool,
    nested_follows: &Vec<(String, String)>,
    metadata: Option<&Json>,
)
    requires
        !url_lock_panics(url@, locked_info.deep()),
        nodes_writable(old(lock_data).deep()),
    ensures
        final(lock_data).deep() == lock_with_input_node(
            old(lock_data).deep(),
            name@,
            url@,
            locked_info.deep(),
            is_flake,
            pair_views(nested_follows@),
            match metadata {
                Some(m) => Some(m.deep()),
                None => None,
            },
        ),
{
    let (_lock_type, original, locked) = parse_url_for_lock(url, locked_info);
    let ghost od = original.deep();
    let ghost ld = locked.deep();
    let mut nm: Vec<(String, Json)> = Vec::new();
    nm.push((owned("locked"), locked));
    nm.push((owned("original"), original));
    assert(members_deep(nm@) =~= seq![("locked"@, ld), ("original"@, od)]);
    let mut node = object(nm);
    if !is_flake {
        set_member(&mut node, "flake", Json::Bool(false));
    }
    if is_flake {
        match metadata {
            Some(m) => match m.get("locks") {
                Some(locks) => {
                    proof { lemma_with_member(node.deep(), "inputs"@, JVal::Null); }
                    merge_transitive_locks(lock_data, name, &mut node, locks, nested_follows);
                },
                None => {},
            },
            None => {},
        }
    }
    let path = path2("nodes", name);
    proof { lemma_nodes_writable(lock_data.deep(), name@, node.deep()); }
    lock_data.assign(&path, node);
}

/// Makes the root refer to input `name` by its node's name.
pub fn refer_input_from_root(lock_data: &mut Json, name: &str)
    requires
        assignable(old(lock_data).deep(), root_input_path(name@)),
    ensures
        final(lock_data).deep() == jassign(old(lock_data).deep(), root_input_path(name@), JVal::Str(name@)),
{
    let rpath = path_of("nodes", "root", "inputs", name);
    lock_data.assign(&rpath, Json::string(name));
}

/// Records input `name`, locked at `url` with what its prefetch reported
/// (`locked_info`): its node, the nodes of its own inputs when it is a flake
/// whose `nix flake metadata` output (`metadata`) lists locks, and a
/// reference to it from the root.
pub fn update_input_in_lock(
    lock_data: &mut Json,
    name: &str,
    url: &str,
    locked_info: &Json,
    is_flake: bool,
    nested_follows: &Vec<(String, String)>,
    metadata: Option<&Json>,
)
    requires
        input_lock_ok(
            old(lock_data).deep(),
            name@,
            url@,
            locked_info.deep(),
            is_flake,
            pair_views(nested_follows@),
            match metadata {
                Some(m) => Some(m.deep()),
                None => None,
            },
        ),
    ensures
        final(lock_data).deep() == lock_with_input(
            old(lock_data).deep(),
            name@,
            url@,
            locked_info.deep(),
            is_flake,
            pair_views(nested_follows@),
            match metadata {
                Some(m) => Some(m.deep()),
                None => None,
            },
        ),
{
    store_input_node(lock_data, name, url, locked_info, is_flake, nested_follows, metadata);
    refer_input_from_root(lock_data, name);
}

/// What to do with an input while locking.
pub enum LockStep {
    /// The input follows another: record the follows path.
    Follow(String),
    /// Leave the input as it is.
    Skip,
    /// Prefetch this URL and record the input as locked at it.
    Fetch(String),
}

/// The URL an override gives input `name`, if any (the first override counts).
pub open spec fn override_url(args: LockArgs, name: Seq<char>) -> Option<Seq<char>> {
    pair_lookup(pair_views(args.override_inputs@), name)
}

/// The step taken for `input`: a follows input is recorded as such; an input
/// with neither URL nor override is skipped, as is one already locked that is
/// not to be updated (no `--update-all`, not listed, no override); any other
/// is fetched from its override URL or else its own URL.
pub open spec fn lock_step(lock: JVal, input: FlakeInput, args: LockArgs) -> LockStepView {
    match input.follows {
        Some(f) => LockStepView::Follow(f@),
        None => {
            let url = match override_url(args, input.name@) {
                Some(u) => Some(u),
                None => match input.url {
                    Some(u) => Some(u@),
                    None => None,
                },
            };
            match url {
                None => LockStepView::Skip,
                Some(u) => if input_locked(lock, input.name@) && !args.update_all
                    && !views(args.update_inputs@).contains(input.name@) && override_url(
                    args,
                    input.name@,
                ) is None {
                    LockStepView::Skip
                } else {
                    LockStepView::Fetch(u)
                },
            }
        },
    }
}

/// A lock step, by value.
pub enum LockStepView {
    Follow(Seq<char>),
    Skip,
    Fetch(Seq<char>),
}

impl LockStep {
    pub open spec fn view(&self) -> LockStepView {
        match self {
            LockStep::Follow(f) => LockStepView::Follow(f@),
            LockStep::Skip => LockStepView::Skip,
            LockStep::Fetch(u) => LockStepView::Fetch(u@),
        }
    }
}

/// Decides what locking does with `input`, given the current lock data.
pub fn plan_input(lock_data: &Json, input: &FlakeInput, args: &LockArgs) -> (r: LockStep)
    ensures
        r.view() == lock_step(lock_data.deep(), *input, *args),
{
    match &input.follows {
        Some(f) => return LockStep::Follow(f.clone()),
        None => {},
    }
    let ov = find_pair(&args.override_inputs, input.name.as_str());
    let url = match ov {
        Some(u) => u.clone(),
        None => match &input.url {
            Some(u) => u.clone(),
            None => return LockStep::Skip,
        },
    };
    if is_input_locked(lock_data, input.name.as_str()) && !args.update_all && !contains_text(
        &args.update_inputs,
        input.name.as_str(),
    ) && ov.is_none() {
        return LockStep::Skip;
    }
    LockStep::Fetch(url)
}

/// The expression that lists the inputs of the `flake.nix` in `flake_path`
/// (name, URL, `follows`, `flake` and the follows of their own inputs),
/// without copying the flake to the store.
pub open spec fn inputs_expr_text(flake_path: Seq<char>) -> Seq<char> {
    "\n        let\n          flake = import "@ + flake_path + "/flake.nix;\n          inputs = flake.inputs or {};\n\n          # Convert a value to string, handling paths without store import\n          toStr = v: if builtins.isPath v then builtins.toString v else v;\n\n          # Extract nested follows from an input's inputs attribute\n          # e.g., inputs.home-manager.inputs.nixpkgs.follows = \"nixpkgs\"\n          # Returns a list of {inputName, followsPath} pairs\n          getNestedFollows = attrs:\n            if attrs ? inputs && builtins.isAttrs attrs.inputs\n            then builtins.filter (x: x != null) (builtins.attrValues (builtins.mapAttrs\n              (inputName: inputSpec:\n                if builtins.isAttrs inputSpec && inputSpec ? follows\n                then { inherit inputName; followsPath = inputSpec.follows; }\n                else null)\n              attrs.inputs))\n            else [];\n\n          # Extract info for each input\n          getInfo = name: let\n            input = inputs.${name};\n            attrs = if builtins.isAttrs input then input else { url = input; };\n          in {\n            inherit name;\n            url = toStr (attrs.url or null);\n            follows = attrs.follows or null;\n            flake = attrs.flake or true;\n            nestedFollows = getNestedFollows attrs;\n          };\n        in\n          map getInfo (builtins.attrNames inputs)\n        "@
}

/// The expression that lists the inputs of the flake in `flake_path`.
pub fn inputs_expr(flake_path: &str) -> (r: String)
    ensures
        r@ == inputs_expr_text(flake_path@),
{
    let mut r = String::from_str("\n        let\n          flake = import ");
    r.append(flake_path);
    r.append("/flake.nix;\n          inputs = flake.inputs or {};\n\n          # Convert a value to string, handling paths without store import\n          toStr = v: if builtins.isPath v then builtins.toString v else v;\n\n          # Extract nested follows from an input's inputs attribute\n          # e.g., inputs.home-manager.inputs.nixpkgs.follows = \"nixpkgs\"\n          # Returns a list of {inputName, followsPath} pairs\n          getNestedFollows = attrs:\n            if attrs ? inputs && builtins.isAttrs attrs.inputs\n            then builtins.filter (x: x != null) (builtins.attrValues (builtins.mapAttrs\n              (inputName: inputSpec:\n                if builtins.isAttrs inputSpec && inputSpec ? follows\n                then { inherit inputName; followsPath = inputSpec.follows; }\n                else null)\n              attrs.inputs))\n            else [];\n\n          # Extract info for each input\n          getInfo = name: let\n            input = inputs.${name};\n            attrs = if builtins.isAttrs input then input else { url = input; };\n          in {\n            inherit name;\n            url = toStr (attrs.url or null);\n            follows = attrs.follows or null;\n            flake = attrs.flake or true;\n            nestedFollows = getNestedFollows attrs;\n          };\n        in\n          map getInfo (builtins.attrNames inputs)\n        ");
    r
}

/// A text the evaluator gave, unless it is missing, empty or `null`.
pub open spec fn given_text(t: Option<Seq<char>>) -> Option<Seq<char>> {
    match t {
        Some(s) => if s == "null"@ || s.len() == 0 {
            None
        } else {
            Some(s)
        },
        None => None,
    }
}

/// The texts of an optional text.
pub open spec fn opt_text(o: Option<String>) -> Option<Seq<char>> {
    match o {
        Some(s) => Some(s@),
        None => None,
    }
}

/// The nested follows of an input: each pair whose input name and path
/// were both given, a later pair for a name replacing an earlier one.
pub open spec fn nested_follows_of(v: Seq<(Option<String>, Option<String>)>) -> Seq<(Seq<char>, Seq<char>)>
    decreases v.len(),
{
    if v.len() == 0 {
        Seq::empty()
    } else {
        let rest = nested_follows_of(v.drop_last());
        match (v.last().0, v.last().1) {
            (Some(n), Some(f)) => crate::assoc::tput(rest, n@, f@),
            _ => rest,
        }
    }
}

/// A given text, unless it is empty or `null`.
fn given(t: Option<String>) -> (r: Option<String>)
    ensures
        opt_text(r) == given_text(opt_text(t)),
{
    match t {
        Some(s) => if text_eq(s.as_str(), "null") || s.as_str().unicode_len() == 0 {
            None
        } else {
            Some(s)
        },
        None => None,
    }
}

/// An input of `flake.nix` from what the evaluator gave for it: its name
/// (none without one, or when it is empty), its URL and `follows` (unless
/// empty or `null`), whether it is a flake (yes unless it says otherwise),
/// and its nested follows.
pub fn flake_input_from(
    name: Option<String>,
    url: Option<String>,
    follows: Option<String>,
    flake: Option<bool>,
    nested: &Vec<(Option<String>, Option<String>)>,
) -> (r: Option<FlakeInput>)
    ensures
        match r {
            None => match name {
                Some(n) => n@.len() == 0,
                None => true,
            },
            Some(i) => name matches Some(n) && n@.len() > 0 && i.name@ == n@ && opt_text(i.url) == given_text(
                opt_text(url),
            ) && opt_text(i.follows) == given_text(opt_text(follows)) && i.flake == match flake {
                Some(b) => b,
                None => true,
            } && crate::assoc::tmap(i.nested_follows@) == nested_follows_of(nested@),
        },
{
    let name = match name {
        Some(n) => n,
        None => String::new(),
    };
    if name.as_str().unicode_len() == 0 {
        return None;
    }
    let mut nf: Vec<(String, String)> = Vec::new();
    let n = nested.len();
    for i in 0..n
        invariant
            n == nested@.len(),
            crate::assoc::tmap(nf@) == nested_follows_of(nested@.take(i as int)),
    {
        assert(nested@.take(i + 1).drop_last() =~= nested@.take(i as int));
        assert(nested@.take(i + 1).last() == nested@[i as int]);
        match (&nested[i].0, &nested[i].1) {
            (Some(a), Some(b)) => {
                crate::assoc::put_text(&mut nf, owned(a.as_str()), owned(b.as_str()));
            },
            _ => {},
        }
    }
    assert(nested@.take(n as int) =~= nested@);
    let fl = match flake {
        Some(b) => b,
        None => true,
    };
    Some(FlakeInput { name, url: given(url), follows: given(follows), flake: fl, nested_follows: nf })
}

/// After an input is locked, the root of the lock refers to it: reading
/// `nodes.root.inputs.<name>` gives the name of its node.
pub proof fn locked_input_is_recorded(
    lock: JVal,
    name: Seq<char>,
    url: Seq<char>,
    info: JVal,
    is_flake: bool,
    nested: Seq<(Seq<char>, Seq<char>)>,
    metadata: Option<JVal>,
)
    ensures
        crate::json::jread(lock_with_input(lock, name, url, info, is_flake, nested, metadata), root_input_path(name))
            == JVal::Str(name),
        input_locked(lock_with_input(lock, name, url, info, is_flake, nested, metadata), name),
{
    let d = lock_with_input(lock, name, url, info, is_flake, nested, metadata);
    let pre = lock_with_input_node(lock, name, url, info, is_flake, nested, metadata);
    crate::json::assign_then_read(pre, root_input_path(name), JVal::Str(name));
    let p = root_input_path(name);
    assert(p.drop_first() =~= seq!["root"@, "inputs"@, name]);
    assert(p.drop_first().drop_first() =~= seq!["inputs"@, name]);
    assert(p.drop_first().drop_first().drop_first() =~= seq![name]);
    assert(p.drop_first().drop_first().drop_first().drop_first() =~= Seq::<Seq<char>>::empty());
    let x = root_inputs(d);
    let d1 = crate::json::jidx(d, "nodes"@);
    let d2 = crate::json::jidx(d1, "root"@);
    let d3 = crate::json::jidx(d2, "inputs"@);
    assert(crate::json::jread(d, p) == crate::json::jread(d1, p.drop_first()));
    assert(crate::json::jread(d1, p.drop_first()) == crate::json::jread(d2, p.drop_first().drop_first()));
    assert(crate::json::jread(d2, p.drop_first().drop_first()) == crate::json::jread(
        d3,
        p.drop_first().drop_first().drop_first(),
    ));
    assert(crate::json::jread(d3, p.drop_first().drop_first().drop_first()) == crate::json::jread(
        crate::json::jidx(d3, name),
        p.drop_first().drop_first().drop_first().drop_first(),
    ));
    assert(crate::json::jread(d, p) == crate::json::jidx(x, name));
}

/// After the follows of an input are recorded, reading
/// `nodes.root.inputs.<name>` gives the follows path, split at `/`.
pub proof fn follows_is_recorded(lock: JVal, name: Seq<char>, follows: Seq<char>)
    ensures
        crate::json::jread(
            jassign(lock, root_input_path(name), str_array(split_seq(follows, "/"@))),
            root_input_path(name),
        ) == str_array(split_seq(follows, "/"@)),
{
    crate::json::assign_then_read(lock, root_input_path(name), str_array(split_seq(follows, "/"@)));
}

proof fn lemma_first_free_name(d: JVal, base: Seq<char>, i: nat)
    requires
        !has_node(d, base + "_transitive"@),
    ensures
        !has_node(d, first_free_name(d, base, i)),
    decreases 100 - i,
{
    if i < 100 && has_node(d, suffixed(base, i)) {
        lemma_first_free_name(d, base, i + 1);
    }
}

/// The name chosen for a new node is not taken, unless even
/// `<base>_transitive` is.
pub proof fn unique_node_name_is_free(d: JVal, base: Seq<char>)
    requires
        !has_node(d, base + "_transitive"@),
    ensures
        !has_node(d, unique_node_name(d, base)),
{
    if has_node(d, base) {
        lemma_first_free_name(d, base, 2);
    }
}

proof fn lemma_first_free_name_or_fallback(d: JVal, base: Seq<char>, i: nat)
    ensures
        !has_node(d, first_free_name(d, base, i)) || first_free_name(d, base, i) == base + "_transitive"@,
    decreases 100 - i,
{
    if i < 100 && has_node(d, suffixed(base, i)) {
        lemma_first_free_name_or_fallback(d, base, i + 1);
    }
}

/// `cur` still has every node of `orig`, unchanged, and may get new ones.
pub open spec fn keeps_nodes(orig: JVal, cur: JVal) -> bool {
    &&& nodes_writable(cur)
    &&& forall|k: Seq<char>| #[trigger] has_node(orig, k) ==> jget(jidx(cur, "nodes"@), k) == jget(jidx(orig, "nodes"@), k)
}

/// No node of `d` is named like the last resort of `unique_node_name`.
pub open spec fn no_fallback_names(d: JVal) -> bool {
    forall|n: Seq<char>| #[trigger] has_node(d, n) ==> !crate::text::has_suffix(n, "_transitive"@)
}

proof fn lemma_assign_node_keeps(d: JVal, f: Seq<char>, val: JVal, k: Seq<char>)
    requires
        nodes_writable(d),
        k != f,
    ensures
        jget(jidx(jassign(d, seq!["nodes"@, f], val), "nodes"@), k) == jget(jidx(d, "nodes"@), k),
{
    let p = seq!["nodes"@, f];
    let s = match d {
        JVal::Object(s) => s,
        _ => Seq::empty(),
    };
    let inner = match lookup(s, "nodes"@) {
        Some(x) => x,
        None => JVal::Null,
    };
    assert(jidx(d, "nodes"@) == inner);
    assert(p.drop_first() =~= seq![f]);
    crate::json::lemma_lookup_upsert(s, "nodes"@, jassign(inner, seq![f], val), "nodes"@);
    assert(jidx(jassign(d, p, val), "nodes"@) == jassign(inner, seq![f], val));
    crate::json::assign_keeps_other_members(inner, seq![f], val, k);
}

proof fn lemma_first_pass_step_keeps(
    orig: JVal,
    st: (JVal, Seq<(Seq<char>, JVal)>),
    e: (Seq<char>, JVal),
    input_nodes: Seq<(Seq<char>, JVal)>,
    nested: Seq<(Seq<char>, Seq<char>)>,
)
    requires
        keeps_nodes(orig, st.0),
        no_fallback_names(orig),
    ensures
        keeps_nodes(orig, first_pass_step(st, e, input_nodes, nested).0),
{
    if pair_lookup(nested, e.0) is None {
        match e.1 {
            JVal::Str(nn) => match lookup(input_nodes, nn) {
                Some(tn) => {
                    let f = unique_node_name(st.0, nn);
                    let nm = upsert(st.1, nn, JVal::Str(f));
                    let val = remap_node(tn, nm);
                    let next = jassign(st.0, seq!["nodes"@, f], val);
                    assert(!has_node(orig, f)) by {
                        if has_node(orig, f) {
                            assert(jget(jidx(st.0, "nodes"@), f) == jget(jidx(orig, "nodes"@), f));
                            assert(has_node(st.0, f));
                            if has_node(st.0, nn) {
                                lemma_first_free_name_or_fallback(st.0, nn, 2);
                                assert(f == nn + "_transitive"@);
                                let t = "_transitive"@;
                                assert((nn + t).subrange((nn + t).len() - t.len(), (nn + t).len() as int) =~= t);
                                assert(crate::text::has_suffix(f, t));
                            }
                        }
                    }
                    lemma_nodes_writable(st.0, f, val);
                    assert forall|k: Seq<char>| #[trigger] has_node(orig, k) implies jget(jidx(next, "nodes"@), k)
                        == jget(jidx(orig, "nodes"@), k) by {
                        assert(k != f);
                        lemma_assign_node_keeps(st.0, f, val, k);
                    }
                },
                None => {},
            },
            _ => {},
        }
    }
}

proof fn lemma_first_pass_keeps(
    lock: JVal,
    ii: Seq<(Seq<char>, JVal)>,
    input_nodes: Seq<(Seq<char>, JVal)>,
    nested: Seq<(Seq<char>, Seq<char>)>,
)
    requires
        nodes_writable(lock),
        no_fallback_names(lock),
    ensures
        keeps_nodes(lock, first_pass(lock, ii, input_nodes, nested).0),
    decreases ii.len(),
{
    if ii.len() == 0 {
        assert(first_pass(lock, ii, input_nodes, nested).0 == lock);
    } else {
        lemma_first_pass_keeps(lock, ii.drop_last(), input_nodes, nested);
        let st = first_pass(lock, ii.drop_last(), input_nodes, nested);
        lemma_first_pass_step_keeps(lock, st, ii.last(), input_nodes, nested);
        assert(first_pass(lock, ii, input_nodes, nested) == first_pass_step(st, ii.last(), input_nodes, nested));
    }
}

/// Merging the locks of an input never replaces a node the lock already
/// has (colliding names are renamed), provided no node of the lock is named
/// like the last-resort name `<name>_transitive`.
pub proof fn merge_keeps_existing_nodes(
    lock: JVal,
    node: JVal,
    locks: JVal,
    nested: Seq<(Seq<char>, Seq<char>)>,
    k: Seq<char>,
)
    requires
        nodes_writable(lock),
        no_fallback_names(lock),
        has_node(lock, k),
    ensures
        jget(jidx(merge_result(lock, node, locks, nested).0, "nodes"@), k) == jget(jidx(lock, "nodes"@), k),
{
    match jget(locks, "nodes"@) {
        Some(JVal::Object(input_nodes)) => match lookup(input_nodes, "root"@) {
            Some(root) => match jget(root, "inputs"@) {
                Some(JVal::Object(ii)) => {
                    if ii.len() > 0 {
                        lemma_first_pass_keeps(lock, ii, input_nodes, nested);
                    }
                },
                _ => {},
            },
            None => {},
        },
        _ => {},
    }
}

/// An input given an override is always fetched again, from the override's
/// URL (unless it follows another input).
pub proof fn override_is_always_fetched(lock: JVal, input: FlakeInput, args: LockArgs, u: Seq<char>)
    requires
        input.follows is None,
        override_url(args, input.name@) == Some(u),
    ensures
        lock_step(lock, input, args) == LockStepView::Fetch(u),
{
}

/// An input the lock already records is left alone unless updating all
/// inputs, or this one, was asked for.
pub proof fn locked_input_is_kept(lock: JVal, input: FlakeInput, args: LockArgs)
    requires
        input.follows is None,
        override_url(args, input.name@) is None,
        input_locked(lock, input.name@),
        !args.update_all,
        !views(args.update_inputs@).contains(input.name@),
    ensures
        lock_step(lock, input, args) == LockStepView::Skip,
{
}

/// An input with a URL that the lock does not record yet is fetched from
/// that URL (or its override).
pub proof fn new_input_is_fetched(lock: JVal, input: FlakeInput, args: LockArgs)
    requires
        input.follows is None,
        input.url is Some || override_url(args, input.name@) is Some,
        !input_locked(lock, input.name@),
    ensures
        lock_step(lock, input, args) is Fetch,
{
}

/// Merging an input's own locks changes no member of its node but `inputs`.
proof fn lemma_merge_keeps_member(lock: JVal, node: JVal, locks: JVal, nested: Seq<(Seq<char>, Seq<char>)>, k: Seq<char>)
    requires
        node is Object,
        k != "inputs"@,
    ensures
        jget(merge_result(lock, node, locks, nested).1, k) == jget(node, k),
{
    match jget(locks, "nodes"@) {
        Some(JVal::Object(input_nodes)) => match lookup(input_nodes, "root"@) {
            Some(root) => match jget(root, "inputs"@) {
                Some(JVal::Object(ii)) => if ii.len() > 0 {
                    let st = first_pass(lock, ii, input_nodes, nested);
                    let mapped = second_pass(ii, st.1, nested);
                    if mapped.len() > 0 {
                        let s = match node {
                            JVal::Object(s) => s,
                            _ => Seq::empty(),
                        };
                        lemma_with_member(node, "inputs"@, JVal::Object(mapped));
                        crate::json::lemma_lookup_upsert(s, "inputs"@, JVal::Object(mapped), k);
                    }
                },
                _ => {},
            },
            None => {},
        },
        _ => {},
    }
}

/// Once the node of an input is stored, it records `flake: false` exactly
/// when the input is not a flake: the node of a flake has no `flake`
/// member.
pub proof fn stored_node_marks_non_flakes(
    lock: JVal,
    name: Seq<char>,
    url: Seq<char>,
    info: JVal,
    is_flake: bool,
    nested: Seq<(Seq<char>, Seq<char>)>,
    metadata: Option<JVal>,
)
    ensures
        jget(
            crate::json::jread(
                lock_with_input_node(lock, name, url, info, is_flake, nested, metadata),
                seq!["nodes"@, name],
            ),
            "flake"@,
        ) == (if is_flake {
            None::<JVal>
        } else {
            Some(JVal::Bool(false))
        }),
{
    reveal_strlit("flake");
    reveal_strlit("locked");
    reveal_strlit("original");
    reveal_strlit("inputs");
    let e = url_lock_entry(url, info);
    let s0 = seq![("locked"@, e.2), ("original"@, e.1)];
    let n0 = JVal::Object(s0);
    assert("locked"@ != "flake"@) by {
        assert("locked"@.len() != "flake"@.len());
    }
    assert("original"@ != "flake"@) by {
        assert("original"@.len() != "flake"@.len());
    }
    assert("inputs"@ != "flake"@) by {
        assert("inputs"@[0] != "flake"@[0]);
    }
    crate::json::lemma_key_pos_is(s0, "flake"@, -1);
    assert(jget(n0, "flake"@) is None);
    let node = input_node_value(url, info, is_flake);
    if !is_flake {
        lemma_with_member(n0, "flake"@, JVal::Bool(false));
        crate::json::lemma_lookup_upsert(s0, "flake"@, JVal::Bool(false), "flake"@);
        assert(node is Object);
    }
    assert(jget(node, "flake"@) == (if is_flake {
        None::<JVal>
    } else {
        Some(JVal::Bool(false))
    }));
    let m = merged_with_metadata(lock, node, is_flake, nested, metadata);
    if is_flake {
        match metadata {
            Some(md) => match jget(md, "locks"@) {
                Some(locks) => {
                    lemma_merge_keeps_member(lock, node, locks, nested, "flake"@);
                },
                None => {},
            },
            None => {},
        }
    }
    assert(jget(m.1, "flake"@) == jget(node, "flake"@));
    crate::json::assign_then_read(m.0, seq!["nodes"@, name], m.1);
}

} // verus!
