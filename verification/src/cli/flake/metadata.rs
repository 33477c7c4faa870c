//! `flake metadata`: the metadata of a local flake, read without copying it
//! to the store, and how it is shown.
use vstd::prelude::*;
use crate::json::{Json, JVal, members_deep, lemma_object_deep, jget, jget_str, jget_str_or, jas_u64, jas_i64};
use crate::text::{views, owned, cat, text_eq};
use crate::numtext::decimal;
use crate::paint::{Paint, paint, paint_if};
use crate::command::NixCommand;
use crate::assoc::{keys_of, key_index, lemma_key_index, find_key, sorted_by_key, sorted_key_positions};
use chrono::TimeZone;

verus! {

/// Options of `flake metadata`.
pub struct MetadataArgs {
    /// Flake reference.
    pub flake_ref: String,
    /// Print JSON.
    pub json: bool,
}

/// The state of the git repository a flake is in.
pub struct GitInfo {
    /// The commit `HEAD` points to.
    pub rev: String,
    /// Its first seven characters.
    pub short_rev: String,
    /// The working tree or the index has changes.
    pub is_dirty: bool,
    /// The commit time.
    pub last_modified: Option<u64>,
}

/// The short form of a commit hash: its first seven characters, or all of
/// it when it is shorter.
pub fn short_revision(rev: &str) -> (r: String)
    ensures
        r@ == if rev@.len() >= 7 {
            rev@.take(7)
        } else {
            rev@
        },
{
    let v = crate::text::chars_of(rev);
    if v.len() >= 7 {
        let r = crate::text::string_of_range(&v, 0, 7);
        assert(r@ =~= rev@.take(7));
        r
    } else {
        owned(rev)
    }
}

/// A number, or null.
pub open spec fn opt_num(o: Option<u64>) -> JVal {
    match o {
        Some(n) => JVal::UInt(n),
        None => JVal::Null,
    }
}

/// The time the flake last changed: the commit time in a git repository
/// (else the time of `flake.nix`), the time of `flake.nix` elsewhere.
pub open spec fn effective_last_modified(g: Option<GitInfo>, file_lm: Option<u64>) -> Option<u64> {
    match g {
        Some(g) => match g.last_modified {
            Some(t) => Some(t),
            None => file_lm,
        },
        None => file_lm,
    }
}

/// The `locked` member of the metadata of the flake at `p`.
pub open spec fn locked_value(p: Seq<char>, g: Option<GitInfo>, file_lm: Option<u64>) -> JVal {
    match g {
        Some(gi) => {
            let lm = opt_num(effective_last_modified(g, file_lm));
            if gi.is_dirty {
                JVal::Object(
                    seq![
                        ("__final"@, JVal::Bool(true)),
                        ("dirtyRev"@, JVal::Str(gi.rev@ + "-dirty"@)),
                        ("dirtyShortRev"@, JVal::Str(gi.short_rev@ + "-dirty"@)),
                        ("lastModified"@, lm),
                        ("type"@, JVal::Str("git"@)),
                        ("url"@, JVal::Str("file://"@ + p)),
                    ],
                )
            } else {
                JVal::Object(
                    seq![
                        ("__final"@, JVal::Bool(true)),
                        ("lastModified"@, lm),
                        ("rev"@, JVal::Str(gi.rev@)),
                        ("shortRev"@, JVal::Str(gi.short_rev@)),
                        ("type"@, JVal::Str("git"@)),
                        ("url"@, JVal::Str("file://"@ + p)),
                    ],
                )
            }
        },
        None => JVal::Object(seq![("path"@, JVal::Str(p)), ("type"@, JVal::Str("path"@))]),
    }
}

/// The `original` (and `resolved`) member of the metadata.
pub open spec fn original_value(p: Seq<char>, is_git: bool) -> JVal {
    if is_git {
        JVal::Object(seq![("type"@, JVal::Str("git"@)), ("url"@, JVal::Str("file://"@ + p))])
    } else {
        JVal::Object(seq![("path"@, JVal::Str(p)), ("type"@, JVal::Str("path"@))])
    }
}

/// The URL the flake is known by.
pub open spec fn source_url(p: Seq<char>, is_git: bool) -> Seq<char> {
    if is_git {
        "git+file://"@ + p
    } else {
        "path:"@ + p
    }
}

/// The locks of a flake without `flake.lock`.
pub open spec fn empty_locks() -> JVal {
    JVal::Object(
        seq![
            ("nodes"@, JVal::Object(seq![("root"@, JVal::Object(Seq::empty()))])),
            ("root"@, JVal::Str("root"@)),
            ("version"@, JVal::UInt(7)),
        ],
    )
}

/// The members of the metadata of the local flake at `p`.
pub open spec fn metadata_members(
    p: Seq<char>,
    desc: Option<Seq<char>>,
    file_lm: Option<u64>,
    g: Option<GitInfo>,
    locks: Option<JVal>,
) -> Seq<(Seq<char>, JVal)> {
    let is_git = g is Some;
    let base = seq![
        ("locked"@, locked_value(p, g, file_lm)),
        ("original"@, original_value(p, is_git)),
        ("originalUrl"@, JVal::Str(source_url(p, is_git))),
        ("path"@, JVal::Str(p)),
        ("resolved"@, original_value(p, is_git)),
        ("resolvedUrl"@, JVal::Str(source_url(p, is_git))),
    ];
    let rev: Seq<(Seq<char>, JVal)> = match g {
        Some(gi) => if gi.is_dirty {
            seq![("dirtyRevision"@, JVal::Str(gi.rev@ + "-dirty"@))]
        } else {
            seq![("revision"@, JVal::Str(gi.rev@))]
        },
        None => Seq::empty(),
    };
    let d: Seq<(Seq<char>, JVal)> = match desc {
        Some(s) => seq![("description"@, JVal::Str(s))],
        None => Seq::empty(),
    };
    let lm: Seq<(Seq<char>, JVal)> = match effective_last_modified(g, file_lm) {
        Some(t) => seq![("lastModified"@, JVal::UInt(t))],
        None => Seq::empty(),
    };
    let lk = match locks {
        Some(l) => l,
        None => empty_locks(),
    };
    base + rev + d + lm + seq![("locks"@, lk)]
}

/// Adds a member to an object under construction.
fn put_member(m: &mut Vec<(String, Json)>, k: &str, v: Json)
    ensures
        members_deep(final(m)@) == members_deep(old(m)@).push((k@, v.deep())),
{
    let ghost vd = v.deep();
    m.push((owned(k), v));
    assert(members_deep(m@) =~= members_deep(old(m)@).push((k@, vd)));
}

/// An object with the given members.
fn object(m: Vec<(String, Json)>) -> (r: Json)
    ensures
        r.deep() == JVal::Object(members_deep(m@)),
{
    proof { lemma_object_deep(m); }
    Json::Object(m)
}

/// A number, or null.
fn opt_number(o: Option<u64>) -> (r: Json)
    ensures
        r.deep() == opt_num(o),
{
    match o {
        Some(n) => Json::UInt(n),
        None => Json::Null,
    }
}

/// The `locked` member of the metadata.
fn locked_json(p: &str, git: &Option<GitInfo>, file_lm: Option<u64>) -> (r: Json)
    ensures
        r.deep() == locked_value(p@, *git, file_lm),
{
    let mut m: Vec<(String, Json)> = Vec::new();
    assert(members_deep(m@) =~= Seq::empty());
    match git {
        Some(g) => {
            let lm = match g.last_modified {
                Some(t) => Some(t),
                None => file_lm,
            };
            put_member(&mut m, "__final", Json::Bool(true));
            if g.is_dirty {
                put_member(&mut m, "dirtyRev", Json::Str(cat(g.rev.as_str(), "-dirty")));
                put_member(&mut m, "dirtyShortRev", Json::Str(cat(g.short_rev.as_str(), "-dirty")));
                put_member(&mut m, "lastModified", opt_number(lm));
            } else {
                put_member(&mut m, "lastModified", opt_number(lm));
                put_member(&mut m, "rev", Json::string(g.rev.as_str()));
                put_member(&mut m, "shortRev", Json::string(g.short_rev.as_str()));
            }
            put_member(&mut m, "type", Json::string("git"));
            put_member(&mut m, "url", Json::Str(cat("file://", p)));
            proof {
                let lmv = opt_num(effective_last_modified(*git, file_lm));
                if g.is_dirty {
                    assert(members_deep(m@) =~= seq![
                        ("__final"@, JVal::Bool(true)),
                        ("dirtyRev"@, JVal::Str(g.rev@ + "-dirty"@)),
                        ("dirtyShortRev"@, JVal::Str(g.short_rev@ + "-dirty"@)),
                        ("lastModified"@, lmv),
                        ("type"@, JVal::Str("git"@)),
                        ("url"@, JVal::Str("file://"@ + p@)),
                    ]);
                } else {
                    assert(members_deep(m@) =~= seq![
                        ("__final"@, JVal::Bool(true)),
                        ("lastModified"@, lmv),
                        ("rev"@, JVal::Str(g.rev@)),
                        ("shortRev"@, JVal::Str(g.short_rev@)),
                        ("type"@, JVal::Str("git"@)),
                        ("url"@, JVal::Str("file://"@ + p@)),
                    ]);
                }
            }
        },
        None => {
            put_member(&mut m, "path", Json::string(p));
            put_member(&mut m, "type", Json::string("path"));
            assert(members_deep(m@) =~= seq![("path"@, JVal::Str(p@)), ("type"@, JVal::Str("path"@))]);
        },
    }
    object(m)
}

/// The `original` member of the metadata.
fn original_json(p: &str, is_git: bool) -> (r: Json)
    ensures
        r.deep() == original_value(p@, is_git),
{
    let mut m: Vec<(String, Json)> = Vec::new();
    assert(members_deep(m@) =~= Seq::empty());
    if is_git {
        put_member(&mut m, "type", Json::string("git"));
        put_member(&mut m, "url", Json::Str(cat("file://", p)));
        assert(members_deep(m@) =~= seq![("type"@, JVal::Str("git"@)), ("url"@, JVal::Str("file://"@ + p@))]);
    } else {
        put_member(&mut m, "path", Json::string(p));
        put_member(&mut m, "type", Json::string("path"));
        assert(members_deep(m@) =~= seq![("path"@, JVal::Str(p@)), ("type"@, JVal::Str("path"@))]);
    }
    object(m)
}

/// The URL the flake is known by.
fn source_url_text(p: &str, is_git: bool) -> (r: String)
    ensures
        r@ == source_url(p@, is_git),
{
    if is_git {
        cat("git+file://", p)
    } else {
        cat("path:", p)
    }
}

/// The locks of a flake without `flake.lock`.
pub fn empty_locks_json() -> (r: Json)
    ensures
        r.deep() == empty_locks(),
{
    let mut root: Vec<(String, Json)> = Vec::new();
    assert(members_deep(root@) =~= Seq::empty());
    let mut nodes: Vec<(String, Json)> = Vec::new();
    assert(members_deep(nodes@) =~= Seq::empty());
    put_member(&mut nodes, "root", object(root));
    assert(members_deep(nodes@) =~= seq![("root"@, JVal::Object(Seq::empty()))]);
    let mut m: Vec<(String, Json)> = Vec::new();
    assert(members_deep(m@) =~= Seq::empty());
    put_member(&mut m, "nodes", object(nodes));
    put_member(&mut m, "root", Json::string("root"));
    put_member(&mut m, "version", Json::UInt(7));
    assert(members_deep(m@) =~= seq![
        ("nodes"@, JVal::Object(seq![("root"@, JVal::Object(Seq::empty()))])),
        ("root"@, JVal::Str("root"@)),
        ("version"@, JVal::UInt(7)),
    ]);
    object(m)
}

/// The metadata of the local flake at `flake_path`, from what was read
/// about it: its description, the time of its `flake.nix`, the state of
/// its git repository, and its `flake.lock` (when there is one that parses).
pub fn extract_local_metadata(
    flake_path: &str,
    description: &Option<String>,
    file_last_modified: Option<u64>,
    git: &Option<GitInfo>,
    locks: Option<Json>,
) -> (r: Json)
    ensures
        r.deep() == JVal::Object(
            metadata_members(
                flake_path@,
                match description {
                    Some(d) => Some(d@),
                    None => None,
                },
                file_last_modified,
                *git,
                match locks {
                    Some(l) => Some(l.deep()),
                    None => None,
                },
            ),
        ),
{
    let p = flake_path;
    let is_git = git.is_some();
    let mut m: Vec<(String, Json)> = Vec::new();
    assert(members_deep(m@) =~= Seq::empty());
    put_member(&mut m, "locked", locked_json(p, git, file_last_modified));
    put_member(&mut m, "original", original_json(p, is_git));
    put_member(&mut m, "originalUrl", Json::Str(source_url_text(p, is_git)));
    put_member(&mut m, "path", Json::string(p));
    put_member(&mut m, "resolved", original_json(p, is_git));
    put_member(&mut m, "resolvedUrl", Json::Str(source_url_text(p, is_git)));
    match git {
        Some(g) => {
            if g.is_dirty {
                put_member(&mut m, "dirtyRevision", Json::Str(cat(g.rev.as_str(), "-dirty")));
            } else {
                put_member(&mut m, "revision", Json::string(g.rev.as_str()));
            }
        },
        None => {},
    }
    match description {
        Some(d) => {
            put_member(&mut m, "description", Json::string(d.as_str()));
        },
        None => {},
    }
    let lm = match git {
        Some(g) => match g.last_modified {
            Some(t) => Some(t),
            None => file_last_modified,
        },
        None => file_last_modified,
    };
    match lm {
        Some(t) => {
            put_member(&mut m, "lastModified", Json::UInt(t));
        },
        None => {},
    }
    let lk = match locks {
        Some(l) => l,
        None => empty_locks_json(),
    };
    put_member(&mut m, "locks", lk);
    let r = object(m);
    assert(members_deep(m@) =~= metadata_members(
        flake_path@,
        match description {
            Some(d) => Some(d@),
            None => None,
        },
        file_last_modified,
        *git,
        match locks {
            Some(l) => Some(l.deep()),
            None => None,
        },
    ));
    r
}

/// Why the metadata of a local flake cannot be read.
pub enum MetadataError {
    /// The directory has no `flake.nix`.
    NoFlakeNix,
}

impl MetadataError {
    /// The error's text, for the directory `flake_path`.
    pub fn message(&self, flake_path: &str) -> (r: String)
        ensures
            r@ == "no flake.nix found in "@ + flake_path@,
    {
        cat("no flake.nix found in ", flake_path)
    }
}

/// The metadata of the local flake at `flake_path`; refused when the
/// directory has no `flake.nix` (`flake_nix_exists`), else as
/// `extract_local_metadata` builds it from what was read about it.
pub fn local_metadata(
    flake_path: &str,
    flake_nix_exists: bool,
    description: &Option<String>,
    file_last_modified: Option<u64>,
    git: &Option<GitInfo>,
    locks: Option<Json>,
) -> (r: Result<Json, MetadataError>)
    ensures
        !flake_nix_exists ==> r matches Err(MetadataError::NoFlakeNix),
        flake_nix_exists ==> (r matches Ok(j) && j.deep() == JVal::Object(
            metadata_members(
                flake_path@,
                match description {
                    Some(d) => Some(d@),
                    None => None,
                },
                file_last_modified,
                *git,
                match locks {
                    Some(l) => Some(l.deep()),
                    None => None,
                },
            ),
        )),
{
    if !flake_nix_exists {
        return Err(MetadataError::NoFlakeNix);
    }
    Ok(extract_local_metadata(flake_path, description, file_last_modified, git, locks))
}

/// How a flake input is locked.
#[allow(inconsistent_fields)]
pub enum LockedRef {
    GitHub { owner: String, repo: String, rev: String, last_modified: Option<u64> },
    GitLab { owner: String, repo: String, rev: String },
    Sourcehut { owner: String, repo: String, rev: String },
    Git { url: String, rev: Option<String>, dirty_rev: Option<String>, last_modified: Option<u64> },
    Path { path: String, last_modified: Option<u64> },
    Tarball { url: String },
    Indirect { id: String },
}

/// How a locked reference is shown: as a flake reference.
pub open spec fn locked_ref_text(l: LockedRef) -> Seq<char> {
    match l {
        LockedRef::GitHub { owner, repo, rev, .. } => "github:"@ + owner@ + "/"@ + repo@ + "/"@ + rev@,
        LockedRef::GitLab { owner, repo, rev } => "gitlab:"@ + owner@ + "/"@ + repo@ + "/"@ + rev@,
        LockedRef::Sourcehut { owner, repo, rev } => "sourcehut:"@ + owner@ + "/"@ + repo@ + "/"@
            + rev@,
        LockedRef::Git { url, rev, dirty_rev, .. } => match rev {
            Some(r) => "git+"@ + url@ + "?rev="@ + r@,
            None => match dirty_rev {
                Some(r) => "git+"@ + url@ + "?rev="@ + r@,
                None => "git+"@ + url@,
            },
        },
        LockedRef::Path { path, .. } => "path:"@ + path@,
        LockedRef::Tarball { url } => url@,
        LockedRef::Indirect { id } => "flake:"@ + id@,
    }
}

/// `kind:owner/repo/rev`.
fn forge_ref(kind: &str, owner: &String, repo: &String, rev: &String) -> (r: String)
    ensures
        r@ == kind@ + owner@ + "/"@ + repo@ + "/"@ + rev@,
{
    let mut r = owned(kind);
    r.append(owner.as_str());
    r.append("/");
    r.append(repo.as_str());
    r.append("/");
    r.append(rev.as_str());
    r
}

/// Shows a locked reference as a flake reference.
pub fn format_locked_ref(locked: &LockedRef) -> (r: String)
    ensures
        r@ == locked_ref_text(*locked),
{
    match locked {
        LockedRef::GitHub { owner, repo, rev, .. } => forge_ref("github:", owner, repo, rev),
        LockedRef::GitLab { owner, repo, rev } => forge_ref("gitlab:", owner, repo, rev),
        LockedRef::Sourcehut { owner, repo, rev } => forge_ref("sourcehut:", owner, repo, rev),
        LockedRef::Git { url, rev, dirty_rev, .. } => {
            let effective = match rev {
                Some(r) => Some(r),
                None => match dirty_rev {
                    Some(r) => Some(r),
                    None => None,
                },
            };
            let mut r = cat("git+", url.as_str());
            match effective {
                Some(x) => {
                    r.append("?rev=");
                    r.append(x.as_str());
                },
                None => {},
            }
            r
        },
        LockedRef::Path { path, .. } => cat("path:", path.as_str()),
        LockedRef::Tarball { url } => owned(url.as_str()),
        LockedRef::Indirect { id } => cat("flake:", id.as_str()),
    }
}

/// What `chrono` writes for the UTC time `secs` seconds after the epoch
/// with the pattern `pattern`, when that time is in its range.
pub uninterp spec fn utc_format_text(secs: i64, pattern: Seq<char>) -> Option<Seq<char>>;

/// Calls `chrono::Utc.timestamp_opt(secs, 0)` and formats the single result
/// with `pattern`; the contract only names the result.
#[verifier::external_body]
fn utc_format(secs: i64, pattern: &str) -> (r: Option<String>)
    requires
        pattern@ == "%Y-%m-%d %H:%M:%S"@,
    ensures
        match r {
            Some(t) => utc_format_text(secs, pattern@) == Some(t@),
            None => utc_format_text(secs, pattern@).is_none(),
        },
{
    match chrono::Utc.timestamp_opt(secs, 0) {
        chrono::LocalResult::Single(dt) => Some(dt.format(pattern).to_string()),
        _ => None,
    }
}

/// A timestamp as shown: the formatted time, or the number itself when it
/// could not be formatted.
pub fn timestamp_text(ts: u64, formatted: Option<String>) -> (r: String)
    ensures
        r@ == match formatted {
            Some(t) => t@,
            None => decimal(ts as nat),
        },
{
    match formatted {
        Some(t) => t,
        None => crate::numtext::u64_text(ts),
    }
}

/// How a timestamp is shown.
pub open spec fn timestamp_shown(ts: u64) -> Seq<char> {
    match utc_format_text(ts as i64, "%Y-%m-%d %H:%M:%S"@) {
        Some(t) => t,
        None => decimal(ts as nat),
    }
}

/// A Unix timestamp as a UTC date and time (`2024-01-31 12:00:00`).
pub fn format_timestamp(timestamp: u64) -> (r: String)
    ensures
        r@ == timestamp_shown(timestamp),
{
    let secs = timestamp as i64;
    let f = utc_format(secs, "%Y-%m-%d %H:%M:%S");
    timestamp_text(timestamp, f)
}

/// The lines shown before the inputs tree: description, path and time of
/// the last change, each when the metadata has it.
pub open spec fn metadata_head(c: bool, m: JVal) -> Seq<Seq<char>> {
    (match jget_str(m, "description"@) {
        Some(d) => seq![paint_if(c, Paint::Bold, "Description:"@) + "   "@ + d],
        None => Seq::empty(),
    }) + (match jget_str(m, "path"@) {
        Some(p) => seq![paint_if(c, Paint::Bold, "Path:"@) + "          "@ + p],
        None => Seq::empty(),
    }) + (match jget(m, "lastModified"@) {
        Some(v) => match jas_u64(v) {
            Some(t) => seq![paint_if(c, Paint::Bold, "Last modified:"@) + " "@ + timestamp_shown(t)],
            None => Seq::empty(),
        },
        None => Seq::empty(),
    })
}

/// The lines shown before the inputs tree.
pub fn metadata_head_lines(color: bool, metadata: &Json) -> (r: Vec<String>)
    ensures
        views(r@) == metadata_head(color, metadata.deep()),
{
    let mut r: Vec<String> = Vec::new();
    match metadata.get_str("description") {
        Some(d) => {
            let mut l = paint(color, Paint::Bold, "Description:");
            l.append("   ");
            l.append(d.as_str());
            r.push(l);
        },
        None => {},
    }
    let ghost r1 = views(r@);
    match metadata.get_str("path") {
        Some(p) => {
            let mut l = paint(color, Paint::Bold, "Path:");
            l.append("          ");
            l.append(p.as_str());
            r.push(l);
            assert(views(r@) =~= r1.push(l@));
        },
        None => {},
    }
    let ghost r2 = views(r@);
    match metadata.get("lastModified") {
        Some(v) => match v.as_u64() {
            Some(t) => {
                let mut l = paint(color, Paint::Bold, "Last modified:");
                l.append(" ");
                let ts = format_timestamp(t);
                l.append(ts.as_str());
                r.push(l);
                assert(views(r@) =~= r2.push(l@));
            },
            None => {},
        },
        None => {},
    }
    assert(views(r@) =~= metadata_head(color, metadata.deep()));
    r
}

/// The command that reads the description of the flake at `flake_path`.
pub fn description_command(flake_path: &str) -> (r: NixCommand)
    ensures
        r.prog() == "nix"@,
        r.argv() == seq![
            "eval"@,
            "--raw"@,
            "--impure"@,
            "--expr"@,
            "(import "@ + flake_path@ + "/flake.nix).description or null"@,
        ],
{
    let mut cmd = NixCommand::new("nix");
    cmd.arg("eval");
    cmd.arg("--raw");
    cmd.arg("--impure");
    cmd.arg("--expr");
    let mut e = String::from_str("(import ");
    e.append(flake_path);
    e.append("/flake.nix).description or null");
    cmd.arg(e.as_str());
    assert(cmd.argv() =~= seq![
        "eval"@,
        "--raw"@,
        "--impure"@,
        "--expr"@,
        "(import "@ + flake_path@ + "/flake.nix).description or null"@,
    ]);
    cmd
}

/// The `nix flake metadata` command that remote flakes are handed to.
pub fn delegate_command(flake_ref: &str, json_output: bool) -> (r: NixCommand)
    ensures
        r.prog() == "nix"@,
        r.argv() == seq!["flake"@, "metadata"@] + (if json_output {
            seq!["--json"@]
        } else {
            Seq::empty()
        }) + seq![flake_ref@],
{
    let mut cmd = NixCommand::new("nix");
    cmd.arg("flake");
    cmd.arg("metadata");
    if json_output {
        cmd.arg("--json");
    }
    cmd.arg(flake_ref);
    assert(cmd.argv() =~= seq!["flake"@, "metadata"@] + (if json_output {
        seq!["--json"@]
    } else {
        Seq::<Seq<char>>::empty()
    }) + seq![flake_ref@]);
    cmd
}

/// How an input of `flake.nix` without a lock is shown, from its spec.
pub open spec fn unlocked_input_text(spec: JVal) -> Seq<char> {
    let t = jget_str_or(spec, "type"@, "unknown"@);
    if t == "github"@ {
        let owner = jget_str_or(spec, "owner"@, Seq::empty());
        let repo = jget_str_or(spec, "repo"@, Seq::empty());
        let r = jget_str_or(spec, "ref"@, Seq::empty());
        if r.len() == 0 {
            "github:"@ + owner + "/"@ + repo
        } else {
            "github:"@ + owner + "/"@ + repo + "/"@ + r
        }
    } else if t == "git"@ {
        "git+"@ + jget_str_or(spec, "url"@, Seq::empty())
    } else if t == "path"@ {
        "path:"@ + jget_str_or(spec, "path"@, Seq::empty())
    } else {
        t
    }
}

/// Shows an input of `flake.nix` without a lock.
pub fn format_unlocked_input(spec: &Json) -> (r: String)
    ensures
        r@ == unlocked_input_text(spec.deep()),
{
    proof { reveal_strlit(""); }
    let t = spec.get_str_or("type", "unknown");
    if text_eq(t.as_str(), "github") {
        let owner = spec.get_str_or("owner", "");
        let repo = spec.get_str_or("repo", "");
        let rf = spec.get_str_or("ref", "");
        let mut r = cat("github:", owner.as_str());
        r.append("/");
        r.append(repo.as_str());
        if rf.as_str().unicode_len() > 0 {
            r.append("/");
            r.append(rf.as_str());
        }
        assert(""@ =~= Seq::<char>::empty());
        r
    } else if text_eq(t.as_str(), "git") {
        let u = spec.get_str_or("url", "");
        assert(""@ =~= Seq::<char>::empty());
        cat("git+", u.as_str())
    } else if text_eq(t.as_str(), "path") {
        let p = spec.get_str_or("path", "");
        assert(""@ =~= Seq::<char>::empty());
        cat("path:", p.as_str())
    } else {
        t
    }
}

/// How a locked input is shown as a URL, from its `locked` member (nothing
/// without one).
pub open spec fn locked_input_text(node: JVal) -> Seq<char> {
    match jget(node, "locked"@) {
        None => Seq::empty(),
        Some(l) => {
            let t = jget_str_or(l, "type"@, Seq::empty());
            let g = |k: Seq<char>| jget_str_or(l, k, Seq::empty());
            if t == "github"@ {
                "github:"@ + g("owner"@) + "/"@ + g("repo"@) + "/"@ + g("rev"@) + "?narHash="@ + g(
                    "narHash"@,
                )
            } else if t == "git"@ {
                "git+"@ + g("url"@) + "?rev="@ + g("rev"@)
            } else if t == "path"@ {
                "path:"@ + g("path"@)
            } else if t == "tarball"@ {
                g("url"@)
            } else {
                jget_str_or(l, "url"@, t)
            }
        },
    }
}

/// Shows a locked input as a URL (without its time).
pub fn locked_input_url(node: &Json) -> (r: String)
    ensures
        r@ == locked_input_text(node.deep()),
{
    proof { reveal_strlit(""); }
    assert(""@ =~= Seq::<char>::empty());
    let l = match node.get("locked") {
        Some(l) => l,
        None => {
            return String::new();
        },
    };
    let t = l.get_str_or("type", "");
    if text_eq(t.as_str(), "github") {
        let mut r = String::from_str("github:");
        let a = l.get_str_or("owner", "");
        r.append(a.as_str());
        r.append("/");
        let b = l.get_str_or("repo", "");
        r.append(b.as_str());
        r.append("/");
        let c = l.get_str_or("rev", "");
        r.append(c.as_str());
        r.append("?narHash=");
        let d = l.get_str_or("narHash", "");
        r.append(d.as_str());
        r
    } else if text_eq(t.as_str(), "git") {
        let mut r = String::from_str("git+");
        let a = l.get_str_or("url", "");
        r.append(a.as_str());
        r.append("?rev=");
        let b = l.get_str_or("rev", "");
        r.append(b.as_str());
        r
    } else if text_eq(t.as_str(), "path") {
        let a = l.get_str_or("path", "");
        cat("path:", a.as_str())
    } else if text_eq(t.as_str(), "tarball") {
        l.get_str_or("url", "")
    } else {
        l.get_str_or("url", t.as_str())
    }
}

/// The time a locked input last changed, when its `locked` member has one.
pub fn locked_last_modified(node: &Json) -> (r: Option<i64>)
    ensures
        r == match jget(node.deep(), "locked"@) {
            Some(l) => match jget(l, "lastModified"@) {
                Some(v) => jas_i64(v),
                None => None,
            },
            None => None,
        },
{
    match node.get("locked") {
        Some(l) => match l.get("lastModified") {
            Some(v) => v.as_i64(),
            None => None,
        },
        None => None,
    }
}

/// A URL with the time it was locked, when there is one.
pub fn with_lock_time(url: String, when: Option<&str>) -> (r: String)
    ensures
        r@ == match when {
            Some(w) => url@ + " ("@ + w@ + ")"@,
            None => url@,
        },
{
    match when {
        Some(w) => {
            let mut r = url;
            r.append(" (");
            r.append(w);
            r.append(")");
            r
        },
        None => url,
    }
}

// ---------------------------------------------------------------------------
// The inputs tree

/// How a lock node refers to one of its inputs.
pub enum InputRef {
    /// The node of this name.
    Direct(String),
    /// The input reached along this path of input names.
    Follows(Vec<String>),
}

/// A node of a lock file: its inputs and where it is locked.
pub struct LockNode {
    pub inputs: Vec<(String, InputRef)>,
    pub locked: Option<LockedRef>,
}

/// A lock file: its nodes by name, and the name of the root node.
pub struct FlakeLock {
    pub nodes: Vec<(String, LockNode)>,
    pub root: String,
}

/// The node named `n`, if the lock has one.
pub open spec fn lock_node(lock: FlakeLock, n: Seq<char>) -> Option<LockNode> {
    let i = key_index(keys_of(lock.nodes@), n);
    if i >= 0 {
        Some(lock.nodes@[i].1)
    } else {
        None
    }
}

/// How many nodes of the lock have not had their inputs shown yet.
pub open spec fn unexpanded(lock: FlakeLock, shown: Set<Seq<char>>) -> nat {
    (keys_of(lock.nodes@).to_set() - shown).len()
}

pub proof fn lemma_unexpanded_shrinks(lock: FlakeLock, shown: Set<Seq<char>>, n: Seq<char>)
    requires
        key_index(keys_of(lock.nodes@), n) >= 0,
        !shown.contains(n),
    ensures
        unexpanded(lock, shown.insert(n)) < unexpanded(lock, shown),
{
    let keys = keys_of(lock.nodes@);
    lemma_key_index(keys, n);
    assert(keys[key_index(keys, n)] == n);
    let a = keys.to_set() - shown;
    assert(a.contains(n));
    assert(keys.to_set() - shown.insert(n) =~= a.remove(n));
    assert(keys.to_set().finite());
    vstd::set_lib::lemma_len_subset(a, keys.to_set());
}

pub proof fn lemma_unexpanded_monotone(lock: FlakeLock, a: Set<Seq<char>>, b: Set<Seq<char>>)
    requires
        a.subset_of(b),
    ensures
        unexpanded(lock, b) <= unexpanded(lock, a),
{
    let keys = keys_of(lock.nodes@).to_set();
    assert(keys.finite());
    vstd::set_lib::lemma_len_subset(keys - a, keys);
    vstd::set_lib::lemma_len_subset(keys - b, keys - a);
}

/// The branch drawn before an entry of the tree.
pub open spec fn tree_connector(last: bool) -> Seq<char> {
    if last {
        seq!['\u{2514}', '\u{2500}', '\u{2500}', '\u{2500}']
    } else {
        seq!['\u{251c}', '\u{2500}', '\u{2500}', '\u{2500}']
    }
}

/// The prefix of the lines under an entry.
pub open spec fn tree_child_prefix(prefix: Seq<char>, last: bool) -> Seq<char> {
    if last {
        prefix + "    "@
    } else {
        prefix + seq!['\u{2502}'] + "   "@
    }
}

/// The time a locked reference records, for the kinds that record one.
pub open spec fn locked_time(l: LockedRef) -> Option<u64> {
    match l {
        LockedRef::GitHub { last_modified, .. } => last_modified,
        LockedRef::Git { last_modified, .. } => last_modified,
        LockedRef::Path { last_modified, .. } => last_modified,
        _ => None,
    }
}

/// Where a node is locked, and when, as the tree shows it.
pub open spec fn node_info(node: LockNode) -> Seq<char> {
    match node.locked {
        Some(l) => locked_ref_text(l) + match locked_time(l) {
            Some(t) => " ("@ + timestamp_shown(t) + ")"@,
            None => Seq::empty(),
        },
        None => Seq::empty(),
    }
}

/// The line of an input that follows another.
pub open spec fn follows_line(c: bool, name: Seq<char>, path: Seq<Seq<char>>, prefix: Seq<char>, last: bool) -> Seq<char> {
    prefix + paint_if(c, Paint::Cyan, tree_connector(last)) + paint_if(c, Paint::Bold, name) + paint_if(
        c,
        Paint::Dimmed,
        " follows input '"@ + crate::text::join_seq(path, "."@) + "'"@,
    )
}

/// The line of an input that is a node of the lock.
pub open spec fn direct_line(c: bool, name: Seq<char>, node: LockNode, prefix: Seq<char>, last: bool) -> Seq<char> {
    prefix + paint_if(c, Paint::Cyan, tree_connector(last)) + paint_if(c, Paint::Bold, name) + ": "@ + node_info(
        node,
    )
}

/// The lines of the input `name` (referred to as `r`) and, below it, those
/// of its own inputs when its node has some and was not shown before; with
/// the set of nodes whose inputs have been shown afterwards.
pub open spec fn input_node_lines(
    c: bool,
    lock: FlakeLock,
    name: Seq<char>,
    r: InputRef,
    prefix: Seq<char>,
    last: bool,
    shown: Set<Seq<char>>,
) -> (Seq<Seq<char>>, Set<Seq<char>>)
    decreases unexpanded(lock, shown), 0int, 0int,
{
    match r {
        InputRef::Follows(p) => (seq![follows_line(c, name, views(p@), prefix, last)], shown),
        InputRef::Direct(n) => {
            let i = key_index(keys_of(lock.nodes@), n@);
            if i < 0 {
                (Seq::empty(), shown)
            } else {
                let node = lock.nodes@[i].1;
                let line = direct_line(c, name, node, prefix, last);
                if node.inputs@.len() > 0 && !shown.contains(n@) {
                    proof {
                        lemma_unexpanded_shrinks(lock, shown, n@);
                    }
                    let below = input_children_lines(
                        c,
                        lock,
                        sorted_by_key(node.inputs@),
                        0,
                        tree_child_prefix(prefix, last),
                        shown.insert(n@),
                    );
                    (seq![line] + below.0, below.1)
                } else {
                    (seq![line], shown)
                }
            }
        },
    }
}

/// The lines of the inputs `ch` from the `i`-th on, the last one drawn as
/// the end of its branch.
pub open spec fn input_children_lines(
    c: bool,
    lock: FlakeLock,
    ch: Seq<(String, InputRef)>,
    i: int,
    prefix: Seq<char>,
    shown: Set<Seq<char>>,
) -> (Seq<Seq<char>>, Set<Seq<char>>)
    decreases unexpanded(lock, shown), 1int, ch.len() - i,
{
    if i < 0 || i >= ch.len() {
        (Seq::empty(), shown)
    } else {
        let first = input_node_lines(c, lock, ch[i].0@, ch[i].1, prefix, i == ch.len() - 1, shown);
        let after = shown + first.1;
        proof {
            lemma_unexpanded_monotone(lock, shown, after);
        }
        let rest = input_children_lines(c, lock, ch, i + 1, prefix, after);
        (first.0 + rest.0, rest.1)
    }
}

/// The inputs tree of a lock: a heading and the inputs of the root node
/// sorted by name, each node's own inputs shown below it once; nothing
/// when the root node is missing or has no inputs.
pub open spec fn inputs_tree(c: bool, lock: FlakeLock) -> Seq<Seq<char>> {
    match lock_node(lock, lock.root@) {
        Some(root) => if root.inputs@.len() == 0 {
            Seq::empty()
        } else {
            seq![paint_if(c, Paint::Bold, "Inputs:"@)] + input_children_lines(
                c,
                lock,
                sorted_by_key(root.inputs@),
                0,
                Seq::empty(),
                Set::empty(),
            ).0
        },
        None => Seq::empty(),
    }
}

/// The branch drawn before an entry.
fn connector_text(last: bool) -> (r: String)
    ensures
        r@ == tree_connector(last),
{
    let mut r = String::new();
    if last {
        crate::text::push_char(&mut r, '\u{2514}');
    } else {
        crate::text::push_char(&mut r, '\u{251c}');
    }
    crate::text::push_char(&mut r, '\u{2500}');
    crate::text::push_char(&mut r, '\u{2500}');
    crate::text::push_char(&mut r, '\u{2500}');
    assert(r@ =~= tree_connector(last));
    r
}

/// The prefix of the lines under an entry.
fn child_prefix_text(prefix: &str, last: bool) -> (r: String)
    ensures
        r@ == tree_child_prefix(prefix@, last),
{
    let mut r = owned(prefix);
    if last {
        r.append("    ");
    } else {
        crate::text::push_char(&mut r, '\u{2502}');
        r.append("   ");
    }
    r
}

/// Where a node is locked, and when.
fn node_info_text(node: &LockNode) -> (r: String)
    ensures
        r@ == node_info(*node),
{
    match &node.locked {
        Some(l) => {
            let mut r = format_locked_ref(l);
            let t = match l {
                LockedRef::GitHub { last_modified, .. } => *last_modified,
                LockedRef::Git { last_modified, .. } => *last_modified,
                LockedRef::Path { last_modified, .. } => *last_modified,
                _ => None,
            };
            match t {
                Some(t) => {
                    r.append(" (");
                    let f = format_timestamp(t);
                    r.append(f.as_str());
                    r.append(")");
                },
                None => {},
            }
            r
        },
        None => String::new(),
    }
}

/// Appends the lines of the input `name` and of the inputs below it.
fn push_input_node(
    color: bool,
    lock: &FlakeLock,
    name: &str,
    r: &InputRef,
    prefix: &str,
    last: bool,
    shown: &mut Vec<String>,
    out: &mut Vec<String>,
)
    ensures
        views(final(out)@) == views(old(out)@) + input_node_lines(
            color,
            *lock,
            name@,
            *r,
            prefix@,
            last,
            views(old(shown)@).to_set(),
        ).0,
        views(final(shown)@).to_set() == input_node_lines(
            color,
            *lock,
            name@,
            *r,
            prefix@,
            last,
            views(old(shown)@).to_set(),
        ).1,
        views(old(shown)@).to_set().subset_of(views(final(shown)@).to_set()),
    decreases unexpanded(*lock, views(old(shown)@).to_set()), 0int,
{
    let ghost s0 = views(shown@).to_set();
    match r {
        InputRef::Follows(p) => {
            let mut line = owned(prefix);
            let cn = connector_text(last);
            let a = paint(color, Paint::Cyan, cn.as_str());
            line.append(a.as_str());
            let b = paint(color, Paint::Bold, name);
            line.append(b.as_str());
            let joined = crate::text::join_strings(p, ".");
            let mut tail = String::from_str(" follows input '");
            tail.append(joined.as_str());
            tail.append("'");
            let d = paint(color, Paint::Dimmed, tail.as_str());
            line.append(d.as_str());
            out.push(line);
            proof {
                reveal_strlit(".");
            }
            assert(views(out@) =~= views(old(out)@).push(follows_line(color, name@, views(p@), prefix@, last)));
        },
        InputRef::Direct(n) => {
            match find_key(&lock.nodes, n.as_str()) {
                None => {},
                Some(i) => {
                    let node = &lock.nodes[i].1;
                    let mut line = owned(prefix);
                    let cn = connector_text(last);
                    let a = paint(color, Paint::Cyan, cn.as_str());
                    line.append(a.as_str());
                    let b = paint(color, Paint::Bold, name);
                    line.append(b.as_str());
                    line.append(": ");
                    let info = node_info_text(node);
                    line.append(info.as_str());
                    out.push(line);
                    assert(line@ == direct_line(color, name@, *node, prefix@, last));
                    let seen = crate::cli::diff::holds_text(shown, n.as_str());
                    if node.inputs.len() > 0 && !seen {
                        proof {
                            lemma_unexpanded_shrinks(*lock, s0, n@);
                        }
                        let ghost before = views(shown@);
                        shown.push(owned(n.as_str()));
                        assert(views(shown@) =~= before.push(n@));
                        assert forall|x: Seq<char>| #[trigger] views(shown@).contains(x) <==> s0.insert(n@).contains(x) by {
                            let after = before.push(n@);
                            if after.contains(x) {
                                let k = choose|k: int| 0 <= k < after.len() && after[k] == x;
                                if k < before.len() {
                                    assert(before[k] == x);
                                }
                            }
                            if before.contains(x) {
                                let k = choose|k: int| 0 <= k < before.len() && before[k] == x;
                                assert(after[k] == x);
                            }
                            if x == n@ {
                                assert(after[before.len() as int] == x);
                            }
                        }
                        assert(views(shown@).to_set() =~= s0.insert(n@));
                        let cp = child_prefix_text(prefix, last);
                        push_input_children(color, lock, &node.inputs, cp.as_str(), shown, out);
                    }
                },
            }
        },
    }
}

/// Appends the lines of the inputs `inputs`, sorted by name.
fn push_input_children(
    color: bool,
    lock: &FlakeLock,
    inputs: &Vec<(String, InputRef)>,
    prefix: &str,
    shown: &mut Vec<String>,
    out: &mut Vec<String>,
)
    ensures
        views(final(out)@) == views(old(out)@) + input_children_lines(
            color,
            *lock,
            sorted_by_key(inputs@),
            0,
            prefix@,
            views(old(shown)@).to_set(),
        ).0,
        views(final(shown)@).to_set() == input_children_lines(
            color,
            *lock,
            sorted_by_key(inputs@),
            0,
            prefix@,
            views(old(shown)@).to_set(),
        ).1,
        views(old(shown)@).to_set().subset_of(views(final(shown)@).to_set()),
    decreases unexpanded(*lock, views(old(shown)@).to_set()), 1int,
{
    let ghost ch = sorted_by_key(inputs@);
    let ghost s0 = views(shown@).to_set();
    let ghost o0 = views(out@);
    let pos = sorted_key_positions(inputs);
    let n = pos.len();
    assert(views(out@) =~= o0 + Seq::<Seq<char>>::empty());
    assert(Seq::<Seq<char>>::empty() + input_children_lines(color, *lock, ch, 0, prefix@, s0).0
        =~= input_children_lines(color, *lock, ch, 0, prefix@, s0).0);
    for i in 0..n
        invariant
            n == pos@.len(),
            s0 == views(old(shown)@).to_set(),
            ch == sorted_by_key(inputs@),
            ch.len() == n,
            forall|j: int| 0 <= j < n ==> #[trigger] crate::assoc::placed_at(inputs@, ch, pos@, j),
            s0.subset_of(views(shown@).to_set()),
            exists|acc: Seq<Seq<char>>| {
                &&& views(out@) == o0 + acc
                &&& input_children_lines(color, *lock, ch, 0, prefix@, s0) == (
                    acc + input_children_lines(color, *lock, ch, i as int, prefix@, views(shown@).to_set()).0,
                    input_children_lines(color, *lock, ch, i as int, prefix@, views(shown@).to_set()).1,
                )
            },
    {
        let j = pos[i];
        assert(crate::assoc::placed_at(inputs@, ch, pos@, i as int));
        let ghost si = views(shown@).to_set();
        let ghost oi = views(out@);
        let ghost acc = choose|acc: Seq<Seq<char>>| {
            &&& views(out@) == o0 + acc
            &&& input_children_lines(color, *lock, ch, 0, prefix@, s0) == (
                acc + input_children_lines(color, *lock, ch, i as int, prefix@, si).0,
                input_children_lines(color, *lock, ch, i as int, prefix@, si).1,
            )
        };
        proof {
            lemma_unexpanded_monotone(*lock, s0, si);
        }
        push_input_node(color, lock, inputs[j].0.as_str(), &inputs[j].1, prefix, i + 1 == n, shown, out);
        let ghost first = input_node_lines(color, *lock, ch[i as int].0@, ch[i as int].1, prefix@, i == ch.len() - 1, si);
        let ghost s1 = views(shown@).to_set();
        assert(si + first.1 =~= s1);
        assert(views(out@) == o0 + (acc + first.0));
        assert(input_children_lines(color, *lock, ch, i as int, prefix@, si) == (
            first.0 + input_children_lines(color, *lock, ch, i + 1, prefix@, s1).0,
            input_children_lines(color, *lock, ch, i + 1, prefix@, s1).1,
        ));
        assert(input_children_lines(color, *lock, ch, 0, prefix@, s0) == (
            (acc + first.0) + input_children_lines(color, *lock, ch, i + 1, prefix@, s1).0,
            input_children_lines(color, *lock, ch, i + 1, prefix@, s1).1,
        ));
    }
    let ghost acc = choose|acc: Seq<Seq<char>>| {
        &&& views(out@) == o0 + acc
        &&& input_children_lines(color, *lock, ch, 0, prefix@, s0) == (
            acc + input_children_lines(color, *lock, ch, n as int, prefix@, views(shown@).to_set()).0,
            input_children_lines(color, *lock, ch, n as int, prefix@, views(shown@).to_set()).1,
        )
    };
    assert(acc + Seq::<Seq<char>>::empty() =~= acc);
}

/// The inputs tree that `flake metadata` shows for a lock.
pub fn print_inputs_tree(color: bool, lock: &FlakeLock) -> (r: Vec<String>)
    ensures
        views(r@) == inputs_tree(color, *lock),
{
    let mut out: Vec<String> = Vec::new();
    match find_key(&lock.nodes, lock.root.as_str()) {
        None => out,
        Some(i) => {
            let root = &lock.nodes[i].1;
            if root.inputs.len() == 0 {
                assert(views(out@) =~= Seq::<Seq<char>>::empty());
                return out;
            }
            out.push(paint(color, Paint::Bold, "Inputs:"));
            let mut shown: Vec<String> = Vec::new();
            assert(views(shown@).to_set() =~= Set::<Seq<char>>::empty());
            push_input_children(color, lock, &root.inputs, "", &mut shown, &mut out);
            proof {
                reveal_strlit("");
            }
            assert(""@ =~= Seq::<char>::empty());
            out
        },
    }
}

/// A locked git reference is shown with the revision it is locked at:
/// `git+<url>?rev=<rev>`, its dirty revision when it has no revision, and
/// the bare `git+<url>` when it has neither.
pub proof fn git_ref_shows_its_revision(
    url: String,
    rev: Option<String>,
    dirty_rev: Option<String>,
    last_modified: Option<u64>,
)
    ensures
        locked_ref_text(LockedRef::Git { url, rev, dirty_rev, last_modified }) == match rev {
            Some(r) => "git+"@ + url@ + "?rev="@ + r@,
            None => match dirty_rev {
                Some(d) => "git+"@ + url@ + "?rev="@ + d@,
                None => "git+"@ + url@,
            },
        },
{
}

/// Two git references to one URL, locked at different revisions, are shown
/// differently; and one locked at a revision is not shown as the bare URL.
pub proof fn git_refs_at_other_revisions_differ(
    url: String,
    r1: String,
    r2: String,
    d1: Option<String>,
    d2: Option<String>,
    m1: Option<u64>,
    m2: Option<u64>,
)
    ensures
        r1@ != r2@ ==> locked_ref_text(LockedRef::Git { url, rev: Some(r1), dirty_rev: d1, last_modified: m1 })
            != locked_ref_text(LockedRef::Git { url, rev: Some(r2), dirty_rev: d2, last_modified: m2 }),
        locked_ref_text(LockedRef::Git { url, rev: Some(r1), dirty_rev: d1, last_modified: m1 })
            != locked_ref_text(LockedRef::Git { url, rev: None, dirty_rev: None, last_modified: m2 }),
{
    reveal_strlit("?rev=");
    let pre = "git+"@ + url@ + "?rev="@;
    let a = pre + r1@;
    let b = pre + r2@;
    assert(a.skip(pre.len() as int) =~= r1@);
    assert(b.skip(pre.len() as int) =~= r2@);
    let bare = "git+"@ + url@;
    assert(a.len() >= bare.len() + 5);
}

} // verus!
