//! Character-level text operations with their mathematical meaning.
//!
//! Text is modelled as `Seq<char>` (the view of `String` and `&str`).
use vstd::prelude::*;

verus! {

/// The views of a sequence of owned strings.
pub open spec fn views(v: Seq<String>) -> Seq<Seq<char>> {
    v.map_values(|s: String| s@)
}

/// `p` occurs in `s` starting at index `i`.
pub open spec fn occurs_at(s: Seq<char>, p: Seq<char>, i: int) -> bool {
    &&& 0 <= i
    &&& i + p.len() <= s.len()
    &&& s.subrange(i, i + p.len()) == p
}

/// Index of the leftmost occurrence of `p` in `s`, or -1.
pub open spec fn first_occurrence(s: Seq<char>, p: Seq<char>) -> int {
    if exists|i: int| occurs_at(s, p, i) {
        choose|i: int| occurs_at(s, p, i) && forall|j: int| 0 <= j < i ==> !occurs_at(s, p, j)
    } else {
        -1
    }
}

/// Index of the rightmost occurrence of `p` in `s`, or -1.
pub open spec fn last_occurrence(s: Seq<char>, p: Seq<char>) -> int {
    if exists|i: int| occurs_at(s, p, i) {
        choose|i: int| occurs_at(s, p, i) && forall|j: int| i < j ==> !occurs_at(s, p, j)
    } else {
        -1
    }
}

/// `p` occurs somewhere in `s`.
pub open spec fn contains_seq(s: Seq<char>, p: Seq<char>) -> bool {
    exists|i: int| occurs_at(s, p, i)
}

/// `s` begins with `p`.
pub open spec fn has_prefix(s: Seq<char>, p: Seq<char>) -> bool {
    p.len() <= s.len() && s.subrange(0, p.len() as int) == p
}

/// `s` ends with `p`.
pub open spec fn has_suffix(s: Seq<char>, p: Seq<char>) -> bool {
    p.len() <= s.len() && s.subrange(s.len() - p.len(), s.len() as int) == p
}

/// The pieces of `s` between the non-overlapping leftmost occurrences of a
/// non-empty separator `p` (as `str::split` yields them).
pub open spec fn split_seq(s: Seq<char>, p: Seq<char>) -> Seq<Seq<char>>
    decreases s.len(),
{
    let i = first_occurrence(s, p);
    if p.len() == 0 || i < 0 {
        seq![s]
    } else {
        proof { lemma_first_occurrence(s, p); }
        seq![s.take(i)] + split_seq(s.skip(i + p.len()), p)
    }
}

/// `s` with every non-overlapping leftmost occurrence of a non-empty `p`
/// replaced by `r` (as `str::replace` does).
pub open spec fn replace_seq(s: Seq<char>, p: Seq<char>, r: Seq<char>) -> Seq<char>
    decreases s.len(),
{
    let i = first_occurrence(s, p);
    if p.len() == 0 || i < 0 {
        s
    } else {
        proof { lemma_first_occurrence(s, p); }
        s.take(i) + r + replace_seq(s.skip(i + p.len()), p, r)
    }
}

/// The elements of `parts`, with `sep` between consecutive ones.
pub open spec fn join_seq(parts: Seq<Seq<char>>, sep: Seq<char>) -> Seq<char>
    decreases parts.len(),
{
    if parts.len() == 0 {
        Seq::empty()
    } else if parts.len() == 1 {
        parts[0]
    } else {
        join_seq(parts.drop_last(), sep) + sep + parts.last()
    }
}

pub proof fn lemma_first_occurrence(s: Seq<char>, p: Seq<char>)
    ensures
        first_occurrence(s, p) >= 0 <==> contains_seq(s, p),
        first_occurrence(s, p) >= 0 ==> occurs_at(s, p, first_occurrence(s, p)),
        first_occurrence(s, p) >= 0 ==> forall|j: int|
            0 <= j < first_occurrence(s, p) ==> !occurs_at(s, p, j),
        first_occurrence(s, p) >= -1,
{
    if exists|i: int| occurs_at(s, p, i) {
        let w = choose|i: int| occurs_at(s, p, i);
        lemma_least_occurrence(s, p, w);
    }
}

proof fn lemma_least_occurrence(s: Seq<char>, p: Seq<char>, w: int)
    requires
        occurs_at(s, p, w),
    ensures
        exists|i: int| occurs_at(s, p, i) && forall|j: int| 0 <= j < i ==> !occurs_at(s, p, j),
    decreases w,
{
    if exists|j: int| 0 <= j < w && occurs_at(s, p, j) {
        let j = choose|j: int| 0 <= j < w && occurs_at(s, p, j);
        lemma_least_occurrence(s, p, j);
    }
}

pub proof fn lemma_last_occurrence(s: Seq<char>, p: Seq<char>)
    ensures
        last_occurrence(s, p) >= 0 <==> contains_seq(s, p),
        last_occurrence(s, p) >= 0 ==> occurs_at(s, p, last_occurrence(s, p)),
        last_occurrence(s, p) >= 0 ==> forall|j: int|
            last_occurrence(s, p) < j ==> !occurs_at(s, p, j),
        last_occurrence(s, p) >= -1,
{
    if exists|i: int| occurs_at(s, p, i) {
        let w = choose|i: int| occurs_at(s, p, i);
        lemma_greatest_occurrence(s, p, w);
    }
}

proof fn lemma_greatest_occurrence(s: Seq<char>, p: Seq<char>, w: int)
    requires
        occurs_at(s, p, w),
    ensures
        exists|i: int| occurs_at(s, p, i) && forall|j: int| i < j ==> !occurs_at(s, p, j),
    decreases s.len() - w,
{
    if exists|j: int| w < j && occurs_at(s, p, j) {
        let j = choose|j: int| w < j && occurs_at(s, p, j);
        lemma_greatest_occurrence(s, p, j);
    }
}

/// A leftmost occurrence found by a scan is the one `first_occurrence` names.
pub proof fn lemma_first_is(s: Seq<char>, p: Seq<char>, i: int)
    requires
        occurs_at(s, p, i),
        forall|j: int| 0 <= j < i ==> !occurs_at(s, p, j),
    ensures
        first_occurrence(s, p) == i,
{
    lemma_first_occurrence(s, p);
    let f = first_occurrence(s, p);
    assert(!(f < i));
    assert(!(i < f));
}

/// A rightmost occurrence found by a scan is the one `last_occurrence` names.
pub proof fn lemma_last_is(s: Seq<char>, p: Seq<char>, i: int)
    requires
        occurs_at(s, p, i),
        forall|j: int| i < j ==> !occurs_at(s, p, j),
    ensures
        last_occurrence(s, p) == i,
{
    lemma_last_occurrence(s, p);
    let f = last_occurrence(s, p);
    assert(!(f < i));
    assert(!(i < f));
}

/// Appends one character to a string (`String::push`).
#[verifier::external_body]
pub(crate) fn push_char(s: &mut String, c: char)
    ensures
        final(s)@ == old(s)@.push(c),
{
    s.push(c);
}

/// A copy of `s` as an owned string.
pub fn owned(s: &str) -> (r: String)
    ensures
        r@ == s@,
{
    String::from_str(s)
}

/// `a` followed by `b`.
pub fn cat(a: &str, b: &str) -> (r: String)
    ensures
        r@ == a@ + b@,
{
    let mut r = String::from_str(a);
    r.append(b);
    r
}

/// `a`, `b` and `c` one after the other.
pub fn cat3(a: &str, b: &str, c: &str) -> (r: String)
    ensures
        r@ == a@ + b@ + c@,
{
    let mut r = String::from_str(a);
    r.append(b);
    r.append(c);
    r
}

/// The characters of `s`.
pub fn chars_of(s: &str) -> (v: Vec<char>)
    ensures
        v@ == s@,
{
    let n = s.unicode_len();
    let mut v: Vec<char> = Vec::new();
    for i in 0..n
        invariant
            n == s@.len(),
            v@ == s@.take(i as int),
    {
        v.push(s.get_char(i));
        assert(s@.take(i + 1) =~= s@.take(i as int).push(s@[i as int]));
    }
    assert(s@.take(n as int) =~= s@);
    v
}

/// The string made of the characters `v[from..to]`.
pub fn string_of_range(v: &Vec<char>, from: usize, to: usize) -> (r: String)
    requires
        from <= to <= v@.len(),
    ensures
        r@ == v@.subrange(from as int, to as int),
{
    let mut r = String::new();
    let mut i = from;
    while i < to
        invariant
            from <= i <= to <= v@.len(),
            r@ == v@.subrange(from as int, i as int),
        decreases to - i,
    {
        push_char(&mut r, v[i]);
        assert(v@.subrange(from as int, i + 1) =~= v@.subrange(from as int, i as int).push(
            v@[i as int],
        ));
        i = i + 1;
    }
    r
}

/// The string made of the characters `v`.
pub fn string_of(v: &Vec<char>) -> (r: String)
    ensures
        r@ == v@,
{
    let r = string_of_range(v, 0, v.len());
    assert(v@.subrange(0, v@.len() as int) =~= v@);
    r
}

/// The characters `s[from..to]` as a string.
pub fn substring(s: &str, from: usize, to: usize) -> (r: String)
    requires
        from <= to <= s@.len(),
    ensures
        r@ == s@.subrange(from as int, to as int),
{
    let v = chars_of(s);
    string_of_range(&v, from, to)
}

/// Whether two texts are equal.
pub fn text_eq(a: &str, b: &str) -> (r: bool)
    ensures
        r == (a@ == b@),
{
    let x = String::from_str(a);
    let y = String::from_str(b);
    x == y
}

/// Whether `p` occurs in `v` at index `i`.
pub fn matches_at(v: &Vec<char>, p: &Vec<char>, i: usize) -> (r: bool)
    ensures
        r == occurs_at(v@, p@, i as int),
{
    let vl = v.len();
    if i > vl || p.len() > vl - i {
        return false;
    }
    let mut k: usize = 0;
    while k < p.len()
        invariant
            vl == v@.len(),
            i + p@.len() <= v@.len(),
            k <= p@.len(),
            forall|m: int| 0 <= m < k ==> v@[i + m] == p@[m],
        decreases p@.len() - k,
    {
        if v[i + k] != p[k] {
            assert(v@.subrange(i as int, i + p@.len())[k as int] != p@[k as int]);
            return false;
        }
        k = k + 1;
    }
    assert(v@.subrange(i as int, i + p@.len()) =~= p@);
    true
}

/// Index of the leftmost occurrence of a non-empty `p` in `v`.
pub fn find_seq(v: &Vec<char>, p: &Vec<char>) -> (r: Option<usize>)
    ensures
        match r {
            Some(i) => first_occurrence(v@, p@) == i as int,
            None => first_occurrence(v@, p@) == -1,
        },
{
    proof { lemma_first_occurrence(v@, p@); }
    if p.len() == 0 {
        assert(v@.subrange(0, 0) =~= p@);
        proof { lemma_first_is(v@, p@, 0); }
        return Some(0);
    }
    if p.len() > v.len() {
        return None;
    }
    let last = v.len() - p.len();
    let mut i: usize = 0;
    while i <= last
        invariant
            p@.len() > 0,
            v@.len() <= usize::MAX,
            last == v@.len() - p@.len(),
            i <= last + 1,
            forall|j: int| 0 <= j < i ==> !occurs_at(v@, p@, j),
        decreases last + 1 - i,
    {
        if matches_at(v, p, i) {
            proof { lemma_first_is(v@, p@, i as int); }
            return Some(i);
        }
        i = i + 1;
    }
    None
}

/// Index of the rightmost occurrence of a non-empty `p` in `v`.
pub fn rfind_seq(v: &Vec<char>, p: &Vec<char>) -> (r: Option<usize>)
    ensures
        match r {
            Some(i) => last_occurrence(v@, p@) == i as int,
            None => last_occurrence(v@, p@) == -1,
        },
{
    proof { lemma_last_occurrence(v@, p@); }
    if p.len() == 0 {
        assert(v@.subrange(v@.len() as int, v@.len() as int) =~= p@);
        proof { lemma_last_is(v@, p@, v@.len() as int); }
        return Some(v.len());
    }
    if p.len() > v.len() {
        return None;
    }
    let mut i: usize = v.len() - p.len() + 1;
    while i > 0
        invariant
            i <= v@.len() - p@.len() + 1,
            forall|j: int| i <= j ==> !occurs_at(v@, p@, j),
        decreases i,
    {
        if matches_at(v, p, i - 1) {
            proof { lemma_last_is(v@, p@, i - 1); }
            return Some(i - 1);
        }
        i = i - 1;
    }
    None
}

/// Index of the leftmost occurrence of `pat` in `s`.
pub fn find_str(s: &str, pat: &str) -> (r: Option<usize>)
    ensures
        match r {
            Some(i) => first_occurrence(s@, pat@) == i as int,
            None => first_occurrence(s@, pat@) == -1,
        },
{
    let v = chars_of(s);
    let p = chars_of(pat);
    find_seq(&v, &p)
}

/// Index of the rightmost occurrence of `pat` in `s`.
pub fn rfind_str(s: &str, pat: &str) -> (r: Option<usize>)
    ensures
        match r {
            Some(i) => last_occurrence(s@, pat@) == i as int,
            None => last_occurrence(s@, pat@) == -1,
        },
{
    let v = chars_of(s);
    let p = chars_of(pat);
    rfind_seq(&v, &p)
}

/// Whether `pat` occurs in `s`.
pub fn contains_str(s: &str, pat: &str) -> (r: bool)
    ensures
        r == contains_seq(s@, pat@),
{
    proof { lemma_first_occurrence(s@, pat@); }
    find_str(s, pat).is_some()
}

/// Whether `s` begins with `p`.
pub fn starts_with(s: &str, p: &str) -> (r: bool)
    ensures
        r == has_prefix(s@, p@),
{
    let v = chars_of(s);
    let q = chars_of(p);
    let r = matches_at(&v, &q, 0);
    assert(r == occurs_at(s@, p@, 0));
    r
}

/// Whether `s` ends with `p`.
pub fn ends_with(s: &str, p: &str) -> (r: bool)
    ensures
        r == has_suffix(s@, p@),
{
    let v = chars_of(s);
    let q = chars_of(p);
    if q.len() > v.len() {
        return false;
    }
    let r = matches_at(&v, &q, v.len() - q.len());
    r
}

/// The pieces of `s` between occurrences of the non-empty separator `sep`.
pub fn split_str(s: &str, sep: &str) -> (r: Vec<String>)
    requires
        sep@.len() > 0,
    ensures
        views(r@) == split_seq(s@, sep@),
{
    let p = chars_of(sep);
    let mut rest = chars_of(s);
    let mut out: Vec<String> = Vec::new();
    loop
        invariant
            p@ == sep@,
            p@.len() > 0,
            views(out@) + split_seq(rest@, p@) == split_seq(s@, p@),
        decreases rest@.len(),
    {
        let rl = rest.len();
        match find_seq(&rest, &p) {
            Some(i) => {
                proof { lemma_first_occurrence(rest@, p@); }
                let piece = string_of_range(&rest, 0, i);
                let tail = string_of_range(&rest, i + p.len(), rl);
                let ghost old_rest = rest@;
                let ghost old_out = out@;
                out.push(piece);
                rest = chars_of(tail.as_str());
                proof { lemma_split_step(old_rest, p@, old_out, out@, rest@, i as int); }
            },
            None => {
                let last = string_of(&rest);
                let ghost old_out = out@;
                out.push(last);
                proof { lemma_split_last(rest@, p@, old_out, out@); }
                return out;
            },
        }
    }
}

proof fn lemma_split_last(rest: Seq<char>, p: Seq<char>, old_out: Seq<String>, out: Seq<String>)
    requires
        p.len() > 0,
        first_occurrence(rest, p) == -1,
        out.len() == old_out.len() + 1,
        out == old_out.push(out.last()),
        out.last()@ == rest,
    ensures
        views(out) == views(old_out) + split_seq(rest, p),
{
    assert(split_seq(rest, p) == seq![rest]);
    assert(out =~= old_out.push(out.last()));
    assert(views(out) =~= views(old_out).push(rest));
}

proof fn lemma_split_step(
    old_rest: Seq<char>,
    p: Seq<char>,
    old_out: Seq<String>,
    out: Seq<String>,
    rest: Seq<char>,
    i: int,
)
    requires
        p.len() > 0,
        first_occurrence(old_rest, p) == i,
        i >= 0,
        out.len() == old_out.len() + 1,
        out == old_out.push(out.last()),
        out.last()@ == old_rest.subrange(0, i),
        rest == old_rest.subrange(i + p.len(), old_rest.len() as int),
    ensures
        views(out) + split_seq(rest, p) == views(old_out) + split_seq(old_rest, p),
{
    lemma_first_occurrence(old_rest, p);
    assert(old_rest.take(i) =~= old_rest.subrange(0, i));
    assert(old_rest.skip(i + p.len()) =~= rest);
    assert(split_seq(old_rest, p) == seq![old_rest.take(i)] + split_seq(rest, p));
    assert(views(out) =~= views(old_out).push(old_rest.take(i))) by {
        assert(out =~= old_out.push(out.last()));
    }
    assert(views(out) + split_seq(rest, p) =~= views(old_out) + split_seq(old_rest, p));
}

/// `s` with each occurrence of the non-empty `pat` replaced by `rep`.
pub fn replace_str(s: &str, pat: &str, rep: &str) -> (r: String)
    requires
        pat@.len() > 0,
    ensures
        r@ == replace_seq(s@, pat@, rep@),
{
    let p = chars_of(pat);
    let mut rest = chars_of(s);
    let mut out = String::new();
    loop
        invariant
            p@ == pat@,
            p@.len() > 0,
            out@ + replace_seq(rest@, p@, rep@) == replace_seq(s@, p@, rep@),
        decreases rest@.len(),
    {
        let rl = rest.len();
        match find_seq(&rest, &p) {
            Some(i) => {
                proof { lemma_first_occurrence(rest@, p@); }
                let piece = string_of_range(&rest, 0, i);
                let tail = string_of_range(&rest, i + p.len(), rl);
                let ghost old_rest = rest@;
                let ghost old_out = out@;
                out.append(piece.as_str());
                out.append(rep);
                rest = chars_of(tail.as_str());
                proof { lemma_replace_step(old_rest, p@, rep@, old_out, out@, rest@, i as int); }
            },
            None => {
                proof { assert(replace_seq(rest@, p@, rep@) == rest@); }
                let last = string_of(&rest);
                out.append(last.as_str());
                return out;
            },
        }
    }
}

proof fn lemma_replace_step(
    old_rest: Seq<char>,
    p: Seq<char>,
    r: Seq<char>,
    old_out: Seq<char>,
    out: Seq<char>,
    rest: Seq<char>,
    i: int,
)
    requires
        p.len() > 0,
        first_occurrence(old_rest, p) == i,
        i >= 0,
        out == old_out + old_rest.subrange(0, i) + r,
        rest == old_rest.subrange(i + p.len(), old_rest.len() as int),
    ensures
        out + replace_seq(rest, p, r) == old_out + replace_seq(old_rest, p, r),
{
    lemma_first_occurrence(old_rest, p);
    assert(old_rest.take(i) =~= old_rest.subrange(0, i));
    assert(old_rest.skip(i + p.len()) =~= rest);
    assert(replace_seq(old_rest, p, r) == old_rest.take(i) + r + replace_seq(rest, p, r));
    assert(out + replace_seq(rest, p, r) =~= old_out + replace_seq(old_rest, p, r));
}

/// The strings of `parts` with `sep` between consecutive ones.
pub fn join_strings(parts: &Vec<String>, sep: &str) -> (r: String)
    ensures
        r@ == join_seq(views(parts@), sep@),
{
    let mut r = String::new();
    let n = parts.len();
    for i in 0..n
        invariant
            n == parts@.len(),
            r@ == join_seq(views(parts@).take(i as int), sep@),
    {
        let ghost before = views(parts@).take(i as int);
        if i > 0 {
            r.append(sep);
        }
        r.append(parts[i].as_str());
        proof {
            let after = views(parts@).take(i + 1);
            assert(after.drop_last() =~= before);
            if i == 0 {
                assert(after =~= seq![parts@[0]@]);
            }
        }
    }
    assert(views(parts@).take(n as int) =~= views(parts@));
    r
}

/// Number of bytes `c` takes in UTF-8.
pub open spec fn char_width(c: char) -> nat {
    if (c as u32) < 0x80 {
        1
    } else if (c as u32) < 0x800 {
        2
    } else if (c as u32) < 0x10000 {
        3
    } else {
        4
    }
}

/// Number of bytes `s` takes in UTF-8 (what `str::len` returns).
pub open spec fn utf8_len(s: Seq<char>) -> nat
    decreases s.len(),
{
    if s.len() == 0 {
        0
    } else {
        utf8_len(s.drop_last()) + char_width(s.last())
    }
}

/// The byte length of a prefix grows with every character.
pub proof fn lemma_utf8_len_grows(s: Seq<char>, i: int, j: int)
    requires
        0 <= i < j <= s.len(),
    ensures
        utf8_len(s.take(i)) + (j - i) <= utf8_len(s.take(j)),
    decreases j - i,
{
    assert(s.take(j).drop_last() =~= s.take(j - 1));
    if i < j - 1 {
        lemma_utf8_len_grows(s, i, j - 1);
    }
}

/// Number of bytes `c` takes in UTF-8.
pub fn utf8_width(c: char) -> (r: usize)
    ensures
        r == char_width(c),
{
    let u: u32 = c as u32;
    if u < 0x80 {
        1
    } else if u < 0x800 {
        2
    } else if u < 0x10000 {
        3
    } else {
        4
    }
}

/// `x` without one `\r` at its end, if it has one.
pub open spec fn strip_cr(x: Seq<char>) -> Seq<char> {
    if x.len() > 0 && x.last() == '\r' {
        x.drop_last()
    } else {
        x
    }
}

/// The lines of `s`, as `str::lines` yields them: split at `\n`, with a
/// `\r` before the `\n` removed, and no empty piece after a final `\n`.
pub open spec fn lines_seq(s: Seq<char>) -> Seq<Seq<char>> {
    let p = split_seq(s, seq!['\n']);
    let body = p.drop_last().map_values(|x: Seq<char>| strip_cr(x));
    if p.last().len() == 0 {
        body
    } else {
        body.push(p.last())
    }
}

proof fn lemma_split_nonempty(s: Seq<char>, p: Seq<char>)
    ensures
        split_seq(s, p).len() >= 1,
    decreases s.len(),
{
    let i = first_occurrence(s, p);
    if p.len() > 0 && i >= 0 {
        lemma_first_occurrence(s, p);
        lemma_split_nonempty(s.skip(i + p.len()), p);
    }
}

/// The lines of `s`.
pub fn lines_of(s: &str) -> (r: Vec<String>)
    ensures
        views(r@) == lines_seq(s@),
{
    let mut nl = String::new();
    push_char(&mut nl, '\n');
    let pieces = split_str(s, nl.as_str());
    proof { lemma_split_nonempty(s@, nl@); }
    let ghost p = views(pieces@);
    let n = pieces.len();
    let mut r: Vec<String> = Vec::new();
    for i in 0..n - 1
        invariant
            n == pieces@.len(),
            n >= 1,
            p == views(pieces@),
            views(r@) == p.take(i as int).map_values(|x: Seq<char>| strip_cr(x)),
    {
        let x = &pieces[i];
        let v = chars_of(x.as_str());
        let k = v.len();
        let y = if k > 0 && v[k - 1] == '\r' {
            assert(v@.subrange(0, k - 1) =~= x@.drop_last());
            string_of_range(&v, 0, k - 1)
        } else {
            owned(x.as_str())
        };
        assert(y@ == strip_cr(p[i as int]));
        let ghost before = r@;
        r.push(y);
        assert(views(r@) =~= views(before).push(y@));
        assert(p.take(i + 1) =~= p.take(i as int).push(p[i as int]));
        assert(views(r@) =~= p.take(i + 1).map_values(|x: Seq<char>| strip_cr(x)));
    }
    assert(p.take(n - 1) =~= p.drop_last());
    let last = &pieces[n - 1];
    if last.as_str().unicode_len() > 0 {
        r.push(owned(last.as_str()));
        assert(views(r@) =~= p.drop_last().map_values(|x: Seq<char>| strip_cr(x)).push(p.last()));
    }
    r
}

/// The characters `char::is_whitespace` accepts (Unicode `White_Space`).
pub open spec fn is_space(c: char) -> bool {
    ('\t' <= c && c <= '\r') || c == ' ' || c == '\u{85}' || c == '\u{a0}' || c == '\u{1680}' || (
    '\u{2000}' <= c && c <= '\u{200a}') || c == '\u{2028}' || c == '\u{2029}' || c == '\u{202f}' || c
        == '\u{205f}' || c == '\u{3000}'
}

/// `s` without its leading white space.
pub open spec fn trim_start_seq(s: Seq<char>) -> Seq<char>
    decreases s.len(),
{
    if s.len() > 0 && is_space(s[0]) {
        trim_start_seq(s.drop_first())
    } else {
        s
    }
}

/// `s` without its trailing white space.
pub open spec fn trim_end_seq(s: Seq<char>) -> Seq<char>
    decreases s.len(),
{
    if s.len() > 0 && is_space(s.last()) {
        trim_end_seq(s.drop_last())
    } else {
        s
    }
}

/// `s` without leading and trailing white space (as `str::trim` gives it).
pub open spec fn trim_seq(s: Seq<char>) -> Seq<char> {
    trim_end_seq(trim_start_seq(s))
}

proof fn lemma_trim_start(s: Seq<char>, a: int)
    requires
        0 <= a <= s.len(),
        forall|j: int| 0 <= j < a ==> is_space(#[trigger] s[j]),
        a == s.len() || !is_space(s[a]),
    ensures
        trim_start_seq(s) == s.skip(a),
    decreases a,
{
    if a > 0 {
        let t = s.drop_first();
        assert forall|j: int| 0 <= j < a - 1 implies is_space(#[trigger] t[j]) by {
            assert(t[j] == s[j + 1]);
        }
        if a < s.len() {
            assert(t[a - 1] == s[a]);
        }
        lemma_trim_start(t, a - 1);
        assert(t.skip(a - 1) =~= s.skip(a));
    } else {
        assert(s.skip(0) =~= s);
    }
}

proof fn lemma_trim_end(s: Seq<char>, b: int)
    requires
        0 <= b <= s.len(),
        forall|j: int| b <= j < s.len() ==> is_space(#[trigger] s[j]),
        b == 0 || !is_space(s[b - 1]),
    ensures
        trim_end_seq(s) == s.take(b),
    decreases s.len() - b,
{
    if b < s.len() {
        let t = s.drop_last();
        assert(is_space(s[s.len() - 1]));
        assert forall|j: int| b <= j < t.len() implies is_space(#[trigger] t[j]) by {
            assert(t[j] == s[j]);
        }
        if b > 0 {
            assert(t[b - 1] == s[b - 1]);
        }
        lemma_trim_end(t, b);
        assert(t.take(b) =~= s.take(b));
    } else {
        assert(s.take(b) =~= s);
    }
}

/// Whether `c` is white space.
fn space_char(c: char) -> (r: bool)
    ensures
        r == is_space(c),
{
    ('\t' <= c && c <= '\r') || c == ' ' || c == '\u{85}' || c == '\u{a0}' || c == '\u{1680}' || (
    '\u{2000}' <= c && c <= '\u{200a}') || c == '\u{2028}' || c == '\u{2029}' || c == '\u{202f}' || c
        == '\u{205f}' || c == '\u{3000}'
}

/// `s` without leading and trailing white space.
pub fn trim_text(s: &str) -> (r: String)
    ensures
        r@ == trim_seq(s@),
{
    let v = chars_of(s);
    let n = v.len();
    let mut a: usize = 0;
    while a < n && space_char(v[a])
        invariant
            n == v@.len(),
            v@ == s@,
            a <= n,
            forall|j: int| 0 <= j < a ==> is_space(#[trigger] v@[j]),
        decreases n - a,
    {
        a = a + 1;
    }
    proof { lemma_trim_start(s@, a as int); }
    let mut b: usize = n;
    while b > a && space_char(v[b - 1])
        invariant
            n == v@.len(),
            v@ == s@,
            a <= b <= n,
            forall|j: int| b <= j < n ==> is_space(#[trigger] v@[j]),
        decreases b,
    {
        b = b - 1;
    }
    let ghost t = s@.skip(a as int);
    proof {
        assert forall|j: int| b - a <= j < t.len() implies is_space(#[trigger] t[j]) by {
            assert(t[j] == s@[j + a]);
        }
        if b > a {
            assert(t[b - a - 1] == s@[b - 1]);
        }
        lemma_trim_end(t, b - a);
    }
    let r = string_of_range(&v, a, b);
    assert(r@ =~= t.take(b - a));
    r
}

/// Whether `x` is one of the texts of `v`.
pub fn contains_text(v: &Vec<String>, x: &str) -> (r: bool)
    ensures
        r == views(v@).contains(x@),
{
    let n = v.len();
    for i in 0..n
        invariant
            n == v@.len(),
            forall|j: int| 0 <= j < i ==> views(v@)[j] != x@,
    {
        if text_eq(v[i].as_str(), x) {
            assert(views(v@)[i as int] == x@);
            return true;
        }
    }
    false
}

} // verus!
