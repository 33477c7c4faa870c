//! What the profile subcommands share: reading names and versions out of
//! store paths, and the `--older-than` age.
use vstd::prelude::*;
use crate::text::{
    views, owned, chars_of, split_seq, string_of_range, lines_seq, lines_of, last_occurrence,
    lemma_last_occurrence, first_occurrence, lemma_first_occurrence, find_seq, rfind_seq,
    utf8_len, utf8_width, lemma_utf8_len_grows,
};
use crate::numtext::{is_digit, parse_u64_text, parse_u64};
use crate::assoc::{keys_of, vkeys, vput, key_index, find_key};
use crate::profile::{Manifest, ManifestElement, first_path};
use crate::command::NixCommand;

verus! {

/// The last `/`-separated segment of a path.
pub open spec fn last_segment(p: Seq<char>) -> Seq<char> {
    p.skip(last_occurrence(p, seq!['/']) + 1)
}

/// Index of the first ASCII digit of `s`, or -1.
pub open spec fn first_digit(s: Seq<char>) -> int
    decreases s.len(),
{
    if s.len() == 0 {
        -1
    } else if is_digit(s[0]) {
        0
    } else {
        let r = first_digit(s.drop_first());
        if r < 0 {
            -1
        } else {
            r + 1
        }
    }
}

proof fn lemma_first_digit_is(s: Seq<char>, i: int)
    requires
        0 <= i < s.len(),
        is_digit(s[i]),
        forall|j: int| 0 <= j < i ==> !is_digit(#[trigger] s[j]),
    ensures
        first_digit(s) == i,
    decreases i,
{
    if i > 0 {
        assert(!is_digit(s[0]));
        let t = s.drop_first();
        assert forall|j: int| 0 <= j < i - 1 implies !is_digit(#[trigger] t[j]) by {
            assert(t[j] == s[j + 1]);
        }
        lemma_first_digit_is(t, i - 1);
    }
}

proof fn lemma_first_digit_none(s: Seq<char>)
    requires
        forall|j: int| 0 <= j < s.len() ==> !is_digit(#[trigger] s[j]),
    ensures
        first_digit(s) == -1,
    decreases s.len(),
{
    if s.len() > 0 {
        assert(!is_digit(s[0]));
        let t = s.drop_first();
        assert forall|j: int| 0 <= j < t.len() implies !is_digit(#[trigger] t[j]) by {
            assert(t[j] == s[j + 1]);
        }
        lemma_first_digit_none(t);
    }
}

/// Package name and version read from a store path `/nix/store/hash-name-version`:
/// what follows the first `-` of the last segment, split before the first
/// digit when a `-` stands right before it; `None` when the segment has no `-`.
#[verifier::opaque]
pub open spec fn store_path_parts(path: Seq<char>) -> Option<(Seq<char>, Seq<char>)> {
    let f = last_segment(path);
    let d = first_occurrence(f, seq!['-']);
    if d < 0 {
        None
    } else {
        let np = f.skip(d + 1);
        let i = first_digit(np);
        if i > 0 && np[i - 1] == '-' {
            Some((np.take(i - 1), np.skip(i)))
        } else {
            Some((np, Seq::empty()))
        }
    }
}

/// A one-character pattern.
fn single(c: char) -> (r: Vec<char>)
    ensures
        r@ == seq![c],
{
    let mut r: Vec<char> = Vec::new();
    r.push(c);
    assert(r@ =~= seq![c]);
    r
}

/// Splits a store path into package name and version.
pub fn parse_store_path(path: &str) -> (r: Option<(String, String)>)
    ensures
        match r {
            Some((n, v)) => store_path_parts(path@) == Some((n@, v@)),
            None => store_path_parts(path@).is_none(),
        },
{
    proof { reveal(store_path_parts); }
    let v = chars_of(path);
    let slash = single('/');
    let vl = v.len();
    let start: usize = match rfind_seq(&v, &slash) {
        Some(i) => {
            proof { lemma_last_occurrence(v@, slash@); }
            assert(i < vl);
            i + 1
        },
        None => 0,
    };
    let f = string_of_range(&v, start, v.len());
    assert(f@ =~= last_segment(path@));
    let fv = chars_of(f.as_str());
    let dash = single('-');
    let d = match find_seq(&fv, &dash) {
        Some(d) => d,
        None => {
            return None;
        },
    };
    proof { lemma_first_occurrence(fv@, dash@); }
    let np = string_of_range(&fv, d + 1, fv.len());
    let nv = chars_of(np.as_str());
    assert(nv@ =~= fv@.skip(d + 1));
    let n = nv.len();
    let mut i: usize = 0;
    while i < n && !('0' <= nv[i] && nv[i] <= '9')
        invariant
            n == nv@.len(),
            i <= n,
            forall|j: int| 0 <= j < i ==> !is_digit(#[trigger] nv@[j]),
        decreases n - i,
    {
        i = i + 1;
    }
    if i < n {
        proof { lemma_first_digit_is(nv@, i as int); }
        if i > 0 && nv[i - 1] == '-' {
            let name = string_of_range(&nv, 0, i - 1);
            let version = string_of_range(&nv, i, n);
            assert(name@ =~= nv@.take(i - 1));
            assert(version@ =~= nv@.skip(i as int));
            return Some((name, version));
        }
    } else {
        proof { lemma_first_digit_none(nv@); }
    }
    Some((np, String::new()))
}

/// `k` is the index of a `-` that starts at byte 32 of `b`.
pub open spec fn dash_at_byte_32(b: Seq<char>, k: int) -> bool {
    &&& 0 <= k < b.len()
    &&& utf8_len(b.take(k)) == 32
    &&& b[k] == '-'
}

/// Index of the `-` ending the 32-byte hash of a store basename, when the
/// basename is longer than 33 bytes and has one; else -1.
pub open spec fn hash_dash(b: Seq<char>) -> int {
    if utf8_len(b) > 33 && exists|k: int| dash_at_byte_32(b, k) {
        choose|k: int| dash_at_byte_32(b, k)
    } else {
        -1
    }
}

/// The version at the end of `name-version`: what follows the last `-` when
/// it starts with a digit, else the whole text.
pub open spec fn version_in_name(nv: Seq<char>) -> Seq<char> {
    let pos = last_occurrence(nv, seq!['-']);
    if pos >= 0 && pos + 1 < nv.len() && is_digit(nv[pos + 1]) {
        nv.skip(pos + 1)
    } else {
        nv
    }
}

/// The version shown for a store path whose basename is `b`.
pub open spec fn version_from_basename_spec(b: Seq<char>, store_path: Seq<char>) -> Seq<char> {
    let k = hash_dash(b);
    if k >= 0 {
        version_in_name(b.skip(k + 1))
    } else {
        store_path
    }
}

/// Whether a `/`-separated segment of a path is one of its components:
/// empty segments (repeated or trailing `/`) and `.` are not.
pub open spec fn is_component(s: Seq<char>) -> bool {
    s.len() > 0 && s != "."@
}

/// What `std::path::Path::file_name` gives for the path written `p`: its
/// last component, unless there is none or it is `..`.
pub open spec fn path_file_name(p: Seq<char>) -> Option<Seq<char>> {
    let comps = split_seq(p, seq!['/']).filter(|s: Seq<char>| is_component(s));
    if comps.len() == 0 || comps.last() == ".."@ {
        None
    } else {
        Some(comps.last())
    }
}

/// The version shown for a store path.
pub open spec fn store_path_version(sp: Seq<char>) -> Seq<char> {
    let b = match path_file_name(sp) {
        Some(b) => b,
        None => Seq::empty(),
    };
    version_from_basename_spec(b, sp)
}

/// Calls `std::path::Path::file_name` on the path `p`: the last component
/// of `p` (see `path_file_name`), none when `p` ends in `..`, is a root or
/// a prefix, or is empty.
#[verifier::external_body]
fn file_name_of(p: &str) -> (r: Option<String>)
    ensures
        match r {
            Some(s) => path_file_name(p@) == Some(s@),
            None => path_file_name(p@).is_none(),
        },
{
    std::path::Path::new(p).file_name().map(|s| s.to_string_lossy().to_string())
}

/// Where the hash of a store basename ends, if it does.
fn find_hash_dash(v: &Vec<char>) -> (r: Option<usize>)
    ensures
        match r {
            Some(k) => hash_dash(v@) == k as int && k < v@.len(),
            None => hash_dash(v@) == -1,
        },
{
    let n = v.len();
    let mut i: usize = 0;
    let mut acc: usize = 0;
    assert(v@.take(0) =~= Seq::<char>::empty());
    while i < n && acc < 32
        invariant
            n == v@.len(),
            i <= n,
            acc == utf8_len(v@.take(i as int)),
            acc < 36,
            forall|j: int| 0 <= j < i ==> utf8_len(#[trigger] v@.take(j)) < 32,
        decreases n - i,
    {
        assert(v@.take(i + 1).drop_last() =~= v@.take(i as int));
        acc = acc + utf8_width(v[i]);
        i = i + 1;
    }
    let candidate = acc == 32 && i < n && v[i] == '-';
    let mut total = acc;
    let mut j = i;
    while j < n && total <= 33
        invariant
            n == v@.len(),
            i <= j <= n,
            total == utf8_len(v@.take(j as int)),
            total <= 37,
        decreases n - j,
    {
        assert(v@.take(j + 1).drop_last() =~= v@.take(j as int));
        total = total + utf8_width(v[j]);
        j = j + 1;
    }
    assert(v@.take(n as int) =~= v@);
    proof {
        if j < n {
            lemma_utf8_len_grows(v@, j as int, n as int);
        }
    }
    assert(total > 33 <==> utf8_len(v@) > 33);
    proof {
        assert forall|k: int| dash_at_byte_32(v@, k) implies k == i by {
            if k < i {
                assert(utf8_len(v@.take(k)) < 32);
            } else if k > i {
                lemma_utf8_len_grows(v@, i as int, k);
            }
        }
    }
    if total > 33 && candidate {
        assert(dash_at_byte_32(v@, i as int));
        Some(i)
    } else {
        None
    }
}

/// The version shown for a store path whose basename is `basename`: with the
/// 32-byte hash and its `-` removed, what follows the last `-` when that
/// starts with a digit, else the whole `name-version`; the store path itself
/// when the basename has no such hash.
pub fn version_from_basename(basename: &str, store_path: &str) -> (r: String)
    ensures
        r@ == version_from_basename_spec(basename@, store_path@),
{
    let b = chars_of(basename);
    match find_hash_dash(&b) {
        Some(k) => {
            let nv = string_of_range(&b, k + 1, b.len());
            let nvc = chars_of(nv.as_str());
            assert(nvc@ =~= basename@.skip(k + 1));
            let dash = single('-');
            match rfind_seq(&nvc, &dash) {
                Some(pos) => {
                    proof { lemma_last_occurrence(nvc@, dash@); }
                    if pos + 1 < nvc.len() && '0' <= nvc[pos + 1] && nvc[pos + 1] <= '9' {
                        let r = string_of_range(&nvc, pos + 1, nvc.len());
                        assert(r@ =~= nvc@.skip(pos + 1));
                        return r;
                    }
                    nv
                },
                None => nv,
            }
        },
        None => owned(store_path),
    }
}

/// The version shown for a store path like `/nix/store/hash-name-1.2.3`.
pub fn extract_version(store_path: &str) -> (r: String)
    ensures
        r@ == store_path_version(store_path@),
{
    let basename = match file_name_of(store_path) {
        Some(b) => b,
        None => String::new(),
    };
    version_from_basename(basename.as_str(), store_path)
}

/// The text `unknown`.
pub open spec fn unknown_text() -> Seq<char> {
    seq!['u', 'n', 'k', 'n', 'o', 'w', 'n']
}

/// Name and version of each active package, in manifest order: the version
/// of its first store path, or `unknown` when it has none.
pub open spec fn package_versions(es: Seq<(String, ManifestElement)>) -> Seq<(Seq<char>, Seq<char>)>
    decreases es.len(),
{
    if es.len() == 0 {
        Seq::empty()
    } else {
        let rest = package_versions(es.drop_last());
        let e = es.last();
        if e.1.active {
            rest.push(
                (
                    e.0@,
                    match first_path(e.1) {
                        Some(p) => store_path_version(p),
                        None => unknown_text(),
                    },
                ),
            )
        } else {
            rest
        }
    }
}

/// A list of text pairs, as texts.
pub open spec fn pair_texts(v: Seq<(String, String)>) -> Seq<(Seq<char>, Seq<char>)> {
    v.map_values(|p: (String, String)| (p.0@, p.1@))
}

/// Package name and version of each active package of the manifest.
pub fn get_package_versions(manifest: &Manifest) -> (r: Vec<(String, String)>)
    ensures
        pair_texts(r@) == package_versions(manifest.elements@),
{
    let es = &manifest.elements;
    let n = es.len();
    let mut r: Vec<(String, String)> = Vec::new();
    for i in 0..n
        invariant
            n == es@.len(),
            pair_texts(r@) == package_versions(es@.take(i as int)),
    {
        assert(es@.take(i + 1).drop_last() =~= es@.take(i as int));
        let e = &es[i];
        if e.1.active {
            let v = if e.1.store_paths.len() > 0 {
                extract_version(e.1.store_paths[0].as_str())
            } else {
                let u = String::from_str("unknown");
                proof { reveal_strlit("unknown"); }
                assert(u@ =~= unknown_text());
                u
            };
            let ghost before = r@;
            r.push((owned(e.0.as_str()), v));
            assert(pair_texts(r@) =~= pair_texts(before).push((e.0@, v@)));
        }
    }
    assert(es@.take(n as int) =~= es@);
    r
}

/// Packages of a closure by name: for each store path that has a name, its
/// version and the path, a later path replacing an earlier one of the same
/// name.
pub open spec fn group_packages(c: Seq<Seq<char>>) -> Seq<(Seq<char>, (Seq<char>, Seq<char>))>
    decreases c.len(),
{
    if c.len() == 0 {
        Seq::empty()
    } else {
        let m = group_packages(c.drop_last());
        let p = c.last();
        match store_path_parts(p) {
            Some((n, v)) => vput(m, n, (v, p)),
            None => m,
        }
    }
}

/// A grouping of packages, as texts.
pub open spec fn group_texts(g: Seq<(String, (String, String))>) -> Seq<(Seq<char>, (Seq<char>, Seq<char>))> {
    g.map_values(|e: (String, (String, String))| (e.0@, (e.1.0@, e.1.1@)))
}

proof fn lemma_group_step(c: Seq<Seq<char>>, i: int)
    requires
        0 <= i < c.len(),
    ensures
        group_packages(c.take(i + 1)) == match store_path_parts(c[i]) {
            Some((n, v)) => vput(group_packages(c.take(i)), n, (v, c[i])),
            None => group_packages(c.take(i)),
        },
{
    assert(c.take(i + 1).drop_last() =~= c.take(i));
    assert(c.take(i + 1).last() == c[i]);
}

/// Puts the package `name` with its version and path into a grouping.
fn put_package(r: &mut Vec<(String, (String, String))>, name: String, version: String, path: String)
    ensures
        group_texts(final(r)@) == vput(group_texts(old(r)@), name@, (version@, path@)),
{
    assert(keys_of(r@) =~= vkeys(group_texts(r@)));
    let ghost nv = name@;
    let ghost entry = (version@, path@);
    match find_key(r, name.as_str()) {
        Some(j) => {
            r.set(j, (name, (version, path)));
            assert(group_texts(r@) =~= group_texts(old(r)@).update(j as int, (nv, entry)));
        },
        None => {
            r.push((name, (version, path)));
            assert(group_texts(r@) =~= group_texts(old(r)@).push((nv, entry)));
        },
    }
}

/// Groups the store paths of a closure by package name.
pub fn group_by_package(closure: &Vec<String>) -> (r: Vec<(String, (String, String))>)
    ensures
        group_texts(r@) == group_packages(views(closure@)),
{
    let n = closure.len();
    let ghost c = views(closure@);
    let mut r: Vec<(String, (String, String))> = Vec::new();
    for i in 0..n
        invariant
            n == closure@.len(),
            c == views(closure@),
            group_texts(r@) == group_packages(c.take(i as int)),
    {
        proof { lemma_group_step(c, i as int); }
        assert(c[i as int] == closure@[i as int]@);
        let path = &closure[i];
        match parse_store_path(path.as_str()) {
            Some((name, version)) => {
                put_package(&mut r, name, version, owned(path.as_str()));
            },
            None => {},
        }
    }
    assert(c.take(n as int) =~= c);
    r
}

/// The command that lists the closure of a store path.
pub fn closure_command(path: &str) -> (r: NixCommand)
    ensures
        r.prog() == "nix-store"@,
        r.argv() == seq!["--query"@, "--requisites"@, path@],
{
    let mut cmd = NixCommand::new("nix-store");
    cmd.arg("--query");
    cmd.arg("--requisites");
    cmd.arg(path);
    assert(cmd.argv() =~= seq!["--query"@, "--requisites"@, path@]);
    cmd
}

/// The closure that `closure_command` printed: one store path per line.
pub fn get_closure(output: &str) -> (r: Vec<String>)
    ensures
        views(r@) == lines_seq(output@),
{
    lines_of(output)
}

/// Why an `--older-than` age was refused.
pub enum OlderThanError {
    /// The digits are missing or their value does not fit in 64 bits.
    InvalidNumber,
    /// The character after the digits is not one of `s m h d w`.
    InvalidUnit(char),
}

/// The message shown for an `--older-than` error.
pub open spec fn older_than_error_text(e: OlderThanError) -> Seq<char> {
    match e {
        OlderThanError::InvalidNumber => "Invalid number in --older-than"@,
        OlderThanError::InvalidUnit(c) => "Invalid unit in --older-than: "@ + seq![c] + " (expected s, m, h, d, w)"@,
    }
}

impl OlderThanError {
    /// The message shown for this error.
    pub fn message(&self) -> (r: String)
        ensures
            r@ == older_than_error_text(*self),
    {
        match self {
            OlderThanError::InvalidNumber => String::from_str("Invalid number in --older-than"),
            OlderThanError::InvalidUnit(c) => {
                let mut m = String::from_str("Invalid unit in --older-than: ");
                crate::text::push_char(&mut m, *c);
                m.append(" (expected s, m, h, d, w)");
                m
            },
        }
    }
}

/// Length of the run of ASCII digits that `s` starts with.
pub open spec fn digit_run(s: Seq<char>) -> int
    decreases s.len(),
{
    if s.len() > 0 && is_digit(s[0]) {
        digit_run(s.drop_first()) + 1
    } else {
        0
    }
}

proof fn lemma_digit_run(s: Seq<char>, k: int)
    requires
        0 <= k <= s.len(),
        forall|j: int| 0 <= j < k ==> is_digit(#[trigger] s[j]),
        k == s.len() || !is_digit(s[k]),
    ensures
        digit_run(s) == k,
    decreases k,
{
    if k > 0 {
        let t = s.drop_first();
        assert forall|j: int| 0 <= j < k - 1 implies is_digit(#[trigger] t[j]) by {
            assert(t[j] == s[j + 1]);
        }
        if k - 1 < t.len() {
            assert(t[k - 1] == s[k]);
        }
        lemma_digit_run(t, k - 1);
    }
}

/// Seconds in one of the units `s m h d w`.
pub open spec fn unit_seconds(u: char) -> Option<nat> {
    if u == 's' {
        Some(1)
    } else if u == 'm' {
        Some(60)
    } else if u == 'h' {
        Some(3600)
    } else if u == 'd' {
        Some(86400)
    } else if u == 'w' {
        Some(604800)
    } else {
        None
    }
}

/// The unit of an age: the character after the digits, `d` when there is none.
pub open spec fn age_unit(s: Seq<char>) -> char {
    let k = digit_run(s);
    if k < s.len() {
        s[k]
    } else {
        'd'
    }
}

/// An age such as `30d` or `12h` in seconds: the leading digits times the
/// unit; what comes after the unit is not read.
pub open spec fn older_than_seconds(s: Seq<char>) -> Result<nat, OlderThanError> {
    match parse_u64_text(s.take(digit_run(s))) {
        None => Err(OlderThanError::InvalidNumber),
        Some(n) => match unit_seconds(age_unit(s)) {
            Some(f) => Ok((n * f) as nat),
            None => Err(OlderThanError::InvalidUnit(age_unit(s))),
        },
    }
}

/// The age in seconds fits in 64 bits (or the age is refused anyway).
pub open spec fn older_than_fits(s: Seq<char>) -> bool {
    match older_than_seconds(s) {
        Ok(x) => x <= u64::MAX,
        Err(_) => true,
    }
}

/// Whether the age written `s` fits in 64 bits when it is valid.
pub fn older_than_in_range(s: &str) -> (r: bool)
    ensures
        r == older_than_fits(s@),
{
    match older_than_parts(s) {
        (Some(n), u) => {
            let f: u64 = if u == 's' {
                1
            } else if u == 'm' {
                60
            } else if u == 'h' {
                3600
            } else if u == 'd' {
                86400
            } else if u == 'w' {
                604800
            } else {
                return true;
            };
            (n as u128) * (f as u128) <= u64::MAX as u128
        },
        (None, _) => true,
    }
}

/// The number and the unit of an age, as they are read.
fn older_than_parts(s: &str) -> (r: (Option<u64>, char))
    ensures
        r.0 == parse_u64_text(s@.take(digit_run(s@))),
        r.1 == age_unit(s@),
{
    let v = chars_of(s);
    let n = v.len();
    let mut k: usize = 0;
    while k < n && '0' <= v[k] && v[k] <= '9'
        invariant
            n == v@.len(),
            v@ == s@,
            k <= n,
            forall|j: int| 0 <= j < k ==> is_digit(#[trigger] v@[j]),
        decreases n - k,
    {
        k = k + 1;
    }
    proof { lemma_digit_run(s@, k as int); }
    let digits = string_of_range(&v, 0, k);
    assert(digits@ =~= s@.take(k as int));
    let unit = if k < n {
        v[k]
    } else {
        'd'
    };
    (parse_u64(digits.as_str()), unit)
}

/// Reads an age such as `30d`, `12h` or `2w` as a number of seconds.
pub fn parse_older_than(s: &str) -> (r: Result<u64, OlderThanError>)
    requires
        older_than_fits(s@),
    ensures
        match older_than_seconds(s@) {
            Ok(x) => r == Ok::<u64, OlderThanError>(x as u64),
            Err(e) => r == Err::<u64, OlderThanError>(e),
        },
{
    let (num, unit) = older_than_parts(s);
    let n = match num {
        Some(n) => n,
        None => {
            return Err(OlderThanError::InvalidNumber);
        },
    };
    assert(parse_u64_text(s@.take(digit_run(s@))) == Some(n));
    if unit == 's' {
        assert(n * 1 == n);
        assert(older_than_seconds(s@) == Ok::<nat, OlderThanError>(n as nat));
        Ok(n)
    } else if unit == 'm' {
        assert(older_than_seconds(s@) == Ok::<nat, OlderThanError>((n * 60) as nat));
        Ok(n * 60)
    } else if unit == 'h' {
        assert(older_than_seconds(s@) == Ok::<nat, OlderThanError>((n * 3600) as nat));
        Ok(n * 3600)
    } else if unit == 'd' {
        assert(older_than_seconds(s@) == Ok::<nat, OlderThanError>((n * 86400) as nat));
        Ok(n * 86400)
    } else if unit == 'w' {
        assert(older_than_seconds(s@) == Ok::<nat, OlderThanError>((n * 604800) as nat));
        Ok(n * 604800)
    } else {
        Err(OlderThanError::InvalidUnit(unit))
    }
}

/// What wiping the history of a profile asks for.
pub struct WipeRequest {
    /// Only generations older than this many seconds, when given.
    pub older_than_secs: Option<u64>,
    /// Only report what would be removed.
    pub dry_run: bool,
}

/// The wipe that `profile wipe-history` asks for, with its `--older-than`
/// age read.
pub fn cmd_wipe_history(older_than: Option<&str>, dry_run: bool) -> (r: Result<WipeRequest, OlderThanError>)
    requires
        older_than matches Some(s) ==> older_than_fits(s@),
    ensures
        match older_than {
            None => r matches Ok(w) && w.older_than_secs.is_none() && w.dry_run == dry_run,
            Some(s) => match older_than_seconds(s@) {
                Ok(x) => r matches Ok(w) && w.older_than_secs == Some(x as u64) && w.dry_run == dry_run,
                Err(e) => r == Err::<WipeRequest, OlderThanError>(e),
            },
        },
{
    match older_than {
        None => Ok(WipeRequest { older_than_secs: None, dry_run }),
        Some(s) => match parse_older_than(s) {
            Ok(x) => Ok(WipeRequest { older_than_secs: Some(x), dry_run }),
            Err(e) => Err(e),
        },
    }
}

} // verus!
