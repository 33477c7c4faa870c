//! `flake init` and `flake new`: choosing a template, reading what the
//! evaluator says about it, and deciding which of its files are copied.
use vstd::prelude::*;
use crate::text::{
    views, owned, cat, chars_of, string_of_range, last_occurrence, lemma_last_occurrence,
    rfind_seq, text_eq, split_seq, split_str, replace_seq, replace_str, join_seq, join_strings,
    has_prefix, has_suffix, starts_with, ends_with,
};

verus! {

/// Options of `flake init`.
pub struct InitArgs {
    /// Template reference, such as `templates#trivial`.
    pub template: String,
}

/// Options of `flake new`.
pub struct NewArgs {
    /// Directory for the new flake.
    pub path: String,
    /// Template reference, such as `templates#trivial`.
    pub template: String,
}

/// The flake reference and template name of a template reference: split at
/// the last `#` (the name `default` when there is none), with the shorthand
/// `templates` standing for `github:NixOS/templates`.
pub open spec fn template_ref_parts(s: Seq<char>) -> (Seq<char>, Seq<char>) {
    let i = last_occurrence(s, seq!['#']);
    let f = if i >= 0 {
        s.take(i)
    } else {
        s
    };
    let n = if i >= 0 {
        s.skip(i + 1)
    } else {
        "default"@
    };
    (if f == "templates"@ {
        "github:NixOS/templates"@
    } else {
        f
    }, n)
}

/// Splits a template reference into flake reference and template name.
pub fn split_template_ref(template_ref: &str) -> (r: (String, String))
    ensures
        (r.0@, r.1@) == template_ref_parts(template_ref@),
{
    let v = chars_of(template_ref);
    let mut hash: Vec<char> = Vec::new();
    hash.push('#');
    assert(hash@ =~= seq!['#']);
    proof { lemma_last_occurrence(v@, hash@); }
    let vl = v.len();
    let (f, n) = match rfind_seq(&v, &hash) {
        Some(i) => {
            assert(i < vl);
            let f = string_of_range(&v, 0, i);
            let n = string_of_range(&v, i + 1, vl);
            assert(f@ =~= template_ref@.take(i as int));
            assert(n@ =~= template_ref@.skip(i + 1));
            (f, n)
        },
        None => (owned(template_ref), String::from_str("default")),
    };
    if text_eq(f.as_str(), "templates") {
        (String::from_str("github:NixOS/templates"), n)
    } else {
        (f, n)
    }
}

/// The attribute path of a template in a flake's outputs.
pub open spec fn template_attr_spec(name: Seq<char>) -> Seq<Seq<char>> {
    if name == "default"@ {
        seq!["defaultTemplate"@]
    } else {
        seq!["templates"@, name]
    }
}

/// The attribute path of the template `name` in a flake's outputs.
pub fn template_attr_path(name: &str) -> (r: Vec<String>)
    ensures
        views(r@) == template_attr_spec(name@),
{
    let mut r: Vec<String> = Vec::new();
    if text_eq(name, "default") {
        r.push(String::from_str("defaultTemplate"));
    } else {
        r.push(String::from_str("templates"));
        r.push(owned(name));
    }
    assert(views(r@) =~= template_attr_spec(name@));
    r
}

/// The expressions evaluated for a template: its path, description and
/// welcome text, each read from `store#attr`.
pub open spec fn template_eval_spec(store: Seq<char>, attr: Seq<Seq<char>>) -> (Seq<char>, Seq<char>, Seq<char>) {
    let base = store + "#"@ + join_seq(attr, "."@);
    (base + ".path"@, base + ".description or null"@, base + ".welcomeText or null"@)
}

/// The expressions evaluated for the template at `attr` of the flake in the
/// store path `store`.
pub fn template_eval_exprs(store: &str, attr: &Vec<String>) -> (r: (String, String, String))
    ensures
        (r.0@, r.1@, r.2@) == template_eval_spec(store@, views(attr@)),
{
    let mut base = owned(store);
    base.append("#");
    let joined = join_strings(attr, ".");
    base.append(joined.as_str());
    let mut p = owned(base.as_str());
    p.append(".path");
    let mut d = owned(base.as_str());
    d.append(".description or null");
    let mut w = owned(base.as_str());
    w.append(".welcomeText or null");
    (p, d, w)
}

/// What an optional evaluation printed, unless it printed nothing or `null`.
pub fn optional_eval_output(s: &str) -> (r: Option<String>)
    ensures
        (s@.len() == 0 || s@ == "null"@) ==> r.is_none(),
        !(s@.len() == 0 || s@ == "null"@) ==> (r matches Some(t) && t@ == s@),
{
    if s.unicode_len() == 0 || text_eq(s, "null") {
        None
    } else {
        Some(owned(s))
    }
}

/// The selector of a template in the outputs of a flake, for the evaluator.
pub open spec fn template_selector_spec(name: Seq<char>) -> Seq<char> {
    if name == "default"@ {
        "outputs.defaultTemplate or outputs.templates."@ + name
    } else {
        "outputs.templates."@ + name
    }
}

/// The selector of the template `name` in the outputs of a flake.
pub fn template_selector(name: &str) -> (r: String)
    ensures
        r@ == template_selector_spec(name@),
{
    if text_eq(name, "default") {
        cat("outputs.defaultTemplate or outputs.templates.", name)
    } else {
        cat("outputs.templates.", name)
    }
}

/// The text inside the quotes around `raw`, or `raw` when it is not quoted.
pub open spec fn unquoted(raw: Seq<char>) -> Seq<char> {
    if raw.len() >= 2 && raw[0] == '"' && raw[raw.len() - 1] == '"' {
        raw.subrange(1, raw.len() - 1)
    } else {
        raw
    }
}

/// What the evaluator printed for a template, unwrapped: without the quotes
/// around it, with `\\` read as `\` and then `\"` as `"`.
#[verifier::opaque]
pub open spec fn unwrapped_template_info(raw: Seq<char>) -> Seq<char> {
    replace_seq(replace_seq(unquoted(raw), seq!['\\', '\\'], seq!['\\']), seq!['\\', '"'], seq!['"'])
}

/// Path, description and welcome text of a template, from what the
/// evaluator printed: the unwrapped text split at `@@@`; nothing when it has
/// fewer than three parts.
pub open spec fn template_info_spec(raw: Seq<char>) -> Option<(Seq<char>, Seq<char>, Seq<char>)> {
    let parts = split_seq(unwrapped_template_info(raw), "@@@"@);
    if parts.len() < 3 {
        None
    } else {
        Some((parts[0], parts[1], parts[2]))
    }
}

/// A text of two characters.
fn two_chars(a: char, b: char) -> (r: String)
    ensures
        r@ == seq![a, b],
{
    let mut r = String::new();
    crate::text::push_char(&mut r, a);
    crate::text::push_char(&mut r, b);
    assert(r@ =~= seq![a, b]);
    r
}

/// The text inside the quotes around `raw`.
fn strip_quotes(raw: &str) -> (r: String)
    requires
        raw@ != seq!['"'],
    ensures
        r@ == unquoted(raw@),
{
    let v = chars_of(raw);
    let n = v.len();
    if n >= 2 && v[0] == '"' && v[n - 1] == '"' {
        let s = string_of_range(&v, 1, n - 1);
        s
    } else {
        owned(raw)
    }
}

/// Unwraps what the evaluator printed for a template (a lone `"` is refused:
/// it has no inside).
pub fn unwrap_template_info(raw: &str) -> (r: String)
    requires
        raw@ != seq!['"'],
    ensures
        r@ == unwrapped_template_info(raw@),
{
    proof { reveal(unwrapped_template_info); }
    let inner = strip_quotes(raw);
    let bb = two_chars('\\', '\\');
    let mut b = String::new();
    crate::text::push_char(&mut b, '\\');
    assert(b@ =~= seq!['\\']);
    let once = replace_str(inner.as_str(), bb.as_str(), b.as_str());
    let bq = two_chars('\\', '"');
    let mut quote = String::new();
    crate::text::push_char(&mut quote, '"');
    assert(quote@ =~= seq!['"']);
    replace_str(once.as_str(), bq.as_str(), quote.as_str())
}

/// Path, description and welcome text of a template, from what the
/// evaluator printed; nothing when it is not in that form.
pub fn parse_template_info(raw: &str) -> (r: Option<(String, String, String)>)
    requires
        raw@ != seq!['"'],
    ensures
        match template_info_spec(raw@) {
            None => r.is_none(),
            Some(t) => r matches Some(x) && (x.0@, x.1@, x.2@) == t,
        },
{
    let u = unwrap_template_info(raw);
    proof {
        reveal_strlit("@@@");
    }
    let parts = split_str(u.as_str(), "@@@");
    if parts.len() < 3 {
        return None;
    }
    let ghost pv = views(parts@);
    assert(pv[0] == parts@[0]@ && pv[1] == parts@[1]@ && pv[2] == parts@[2]@);
    Some((owned(parts[0].as_str()), owned(parts[1].as_str()), owned(parts[2].as_str())))
}

/// Counts of the files of a template as they are copied.
pub struct TemplateCopy {
    /// `flake new`: a fresh directory, where no file is skipped.
    pub is_new: bool,
    pub copied: i32,
    pub skipped: i32,
}

impl TemplateCopy {
    /// No file seen yet.
    pub fn new(is_new: bool) -> (r: TemplateCopy)
        ensures
            r.is_new == is_new,
            r.copied == 0,
            r.skipped == 0,
    {
        TemplateCopy { is_new, copied: 0, skipped: 0 }
    }

    /// Whether a template file is copied, given whether its destination
    /// exists: `flake init` skips (and counts) files that exist.
    pub fn should_copy(&mut self, dest_exists: bool) -> (r: bool)
        requires
            old(self).skipped < i32::MAX,
        ensures
            r == (!dest_exists || old(self).is_new),
            final(self).is_new == old(self).is_new,
            final(self).copied == old(self).copied,
            final(self).skipped == old(self).skipped + if r {
                0int
            } else {
                1int
            },
    {
        if dest_exists && !self.is_new {
            self.skipped = self.skipped + 1;
            false
        } else {
            true
        }
    }

    /// Counts one copied file.
    pub fn copied_one(&mut self)
        requires
            old(self).copied < i32::MAX,
        ensures
            final(self).copied == old(self).copied + 1,
            final(self).skipped == old(self).skipped,
            final(self).is_new == old(self).is_new,
    {
        self.copied = self.copied + 1;
    }
}

/// What is printed once the files are copied, one `println` each: where
/// the template went when a file was copied, how many files were skipped,
/// and the welcome text after a blank line.
pub open spec fn template_report(
    t: TemplateCopy,
    template_ref: Seq<char>,
    target: Seq<char>,
    welcome: Seq<char>,
) -> Seq<Seq<char>> {
    (if t.copied > 0 {
        if t.is_new {
            seq!["Created "@ + template_ref + " in "@ + target]
        } else {
            seq!["Initialized "@ + template_ref + " in current directory"@]
        }
    } else {
        Seq::empty()
    }) + (if t.skipped > 0 {
        seq!["(skipped "@ + crate::numtext::decimal(t.skipped as nat) + " existing files)"@]
    } else {
        Seq::empty()
    }) + (if welcome.len() > 0 {
        seq![seq!['\n'] + welcome]
    } else {
        Seq::empty()
    })
}

/// What is printed once the files of the template `template_ref` are copied
/// into `target`.
pub fn template_report_lines(t: &TemplateCopy, template_ref: &str, target: &str, welcome: &str) -> (r: Vec<String>)
    requires
        t.skipped >= 0,
    ensures
        views(r@) == template_report(*t, template_ref@, target@, welcome@),
{
    let mut r: Vec<String> = Vec::new();
    if t.copied > 0 {
        if t.is_new {
            let mut m = String::from_str("Created ");
            m.append(template_ref);
            m.append(" in ");
            m.append(target);
            r.push(m);
        } else {
            let mut m = String::from_str("Initialized ");
            m.append(template_ref);
            m.append(" in current directory");
            r.push(m);
        }
    }
    let ghost r1 = views(r@);
    if t.skipped > 0 {
        let mut m = String::from_str("(skipped ");
        let n = crate::numtext::u64_text(t.skipped as u64);
        m.append(n.as_str());
        m.append(" existing files)");
        r.push(m);
        assert(views(r@) =~= r1.push(m@));
    }
    let ghost r2 = views(r@);
    if welcome.unicode_len() > 0 {
        let mut m = String::new();
        crate::text::push_char(&mut m, '\n');
        m.append(welcome);
        r.push(m);
        assert(views(r@) =~= r2.push(m@));
    }
    assert(views(r@) =~= template_report(*t, template_ref@, target@, welcome@));
    r
}

} // verus!
