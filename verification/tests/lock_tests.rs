use trix::cli::flake::lock::{
    default_lock_data, find_pair, find_unique_node_name, flake_input_from, inputs_expr, is_bare_path,
    is_input_locked, merge_transitive_locks, nodes_accept_new, parse_url_for_lock, plan_input,
    refer_input_from_root, root_can_refer_to, store_input_node, update_follows_in_lock, update_input_in_lock,
    url_lock_fails, FlakeInput, LockArgs, LockStep,
};
use trix::json::Json;

fn s(t: &str) -> Json {
    Json::Str(t.to_string())
}

fn obj(ms: Vec<(&str, Json)>) -> Json {
    Json::Object(ms.into_iter().map(|(k, v)| (k.to_string(), v)).collect())
}

fn at<'a>(j: &'a Json, path: &[&str]) -> Option<&'a Json> {
    let mut cur = j;
    for k in path {
        cur = cur.get(k)?;
    }
    Some(cur)
}

fn text_at(j: &Json, path: &[&str]) -> Option<String> {
    at(j, path).and_then(|x| x.as_str()).cloned()
}

fn texts(j: &Json) -> Vec<String> {
    j.as_array().unwrap().iter().map(|x| x.as_str().unwrap().clone()).collect()
}

fn args() -> LockArgs {
    LockArgs {
        flake_ref: ".".to_string(),
        dry_run: false,
        update_all: false,
        update_inputs: vec![],
        override_inputs: vec![],
    }
}

fn input(name: &str, url: Option<&str>, follows: Option<&str>) -> FlakeInput {
    FlakeInput {
        name: name.to_string(),
        url: url.map(|u| u.to_string()),
        follows: follows.map(|f| f.to_string()),
        flake: true,
        nested_follows: vec![],
    }
}

#[test]
fn default_lock_shape() {
    let d = default_lock_data();
    assert_eq!(text_at(&d, &["root"]), Some("root".to_string()));
    assert_eq!(at(&d, &["version"]).and_then(|v| v.as_u64()), Some(7));
    assert_eq!(at(&d, &["nodes", "root", "inputs"]).and_then(|v| v.as_object()).map(|o| o.len()), Some(0));
    assert!(!is_input_locked(&d, "nixpkgs"));
}

#[test]
fn follows_recorded_as_path() {
    let mut d = default_lock_data();
    update_follows_in_lock(&mut d, "utils", "nixpkgs/lib");
    assert!(is_input_locked(&d, "utils"));
    assert_eq!(texts(at(&d, &["nodes", "root", "inputs", "utils"]).unwrap()), vec!["nixpkgs", "lib"]);
}

#[test]
fn unique_names() {
    let mut d = default_lock_data();
    assert_eq!(find_unique_node_name(&d, "nixpkgs"), "nixpkgs");
    assert_eq!(find_unique_node_name(&d, "root"), "root_2");
    d.assign(&vec!["nodes".to_string(), "root_2".to_string()], obj(vec![]));
    assert_eq!(find_unique_node_name(&d, "root"), "root_3");
    assert_eq!(find_unique_node_name(&Json::Null, "x"), "x");
}

#[test]
fn bare_paths() {
    assert!(is_bare_path("/src/flake"));
    assert!(is_bare_path("./sub"));
    assert!(is_bare_path("../up"));
    assert!(!is_bare_path("github:NixOS/nixpkgs"));
    assert!(!is_bare_path("path:/x"));
}

#[test]
fn lock_entry_of_bare_path() {
    let prefetch = obj(vec![
        ("hash", s("sha256-abc")),
        ("locked", obj(vec![("lastModified", Json::UInt(1700000000))])),
    ]);
    let (t, original, locked) = parse_url_for_lock("./sub", &prefetch);
    assert_eq!(t, "path");
    assert_eq!(text_at(&original, &["type"]), Some("path".to_string()));
    assert_eq!(text_at(&original, &["path"]), Some("./sub".to_string()));
    assert_eq!(text_at(&locked, &["narHash"]), Some("sha256-abc".to_string()));
    assert_eq!(at(&locked, &["lastModified"]).and_then(|v| v.as_u64()), Some(1700000000));
}

#[test]
fn lock_entry_from_prefetch() {
    let prefetch = obj(vec![
        ("hash", s("sha256-def")),
        ("locked", obj(vec![("type", s("github")), ("rev", s("abc"))])),
        ("original", obj(vec![("type", s("github")), ("repo", s("nixpkgs"))])),
    ]);
    let (t, original, locked) = parse_url_for_lock("github:NixOS/nixpkgs", &prefetch);
    assert_eq!(t, "github");
    assert_eq!(text_at(&original, &["repo"]), Some("nixpkgs".to_string()));
    assert_eq!(text_at(&locked, &["rev"]), Some("abc".to_string()));
    assert_eq!(text_at(&locked, &["narHash"]), Some("sha256-def".to_string()));
}

#[test]
fn lock_entry_built_for_github() {
    let prefetch = obj(vec![("narHash", s("sha256-g"))]);
    let (t, original, locked) = parse_url_for_lock("github:owner/repo/main", &prefetch);
    assert_eq!(t, "github");
    assert_eq!(text_at(&original, &["owner"]), Some("owner".to_string()));
    assert_eq!(text_at(&original, &["repo"]), Some("repo".to_string()));
    assert_eq!(text_at(&original, &["ref"]), Some("main".to_string()));
    assert_eq!(text_at(&locked, &["narHash"]), Some("sha256-g".to_string()));
    assert!(at(&locked, &["ref"]).is_none());
}

#[test]
fn lock_entry_indirect() {
    let (t, original, locked) = parse_url_for_lock("nixpkgs", &obj(vec![]));
    assert_eq!(t, "indirect");
    assert_eq!(text_at(&original, &["id"]), Some("nixpkgs".to_string()));
    assert_eq!(text_at(&locked, &["narHash"]), Some(String::new()));
}

#[test]
fn locking_a_non_flake_input() {
    let mut d = default_lock_data();
    let prefetch = obj(vec![("hash", s("sha256-x"))]);
    update_input_in_lock(&mut d, "src", "/srv/src", &prefetch, false, &vec![], None);
    assert!(is_input_locked(&d, "src"));
    assert_eq!(text_at(&d, &["nodes", "root", "inputs", "src"]), Some("src".to_string()));
    assert!(matches!(at(&d, &["nodes", "src", "flake"]), Some(Json::Bool(false))));
    assert_eq!(text_at(&d, &["nodes", "src", "locked", "path"]), Some("/srv/src".to_string()));
}

#[test]
fn locking_a_flake_with_its_inputs() {
    let mut d = default_lock_data();
    d.assign(&vec!["nodes".to_string(), "nixpkgs".to_string()], obj(vec![]));
    let prefetch = obj(vec![("hash", s("sha256-x"))]);
    let metadata = obj(vec![(
        "locks",
        obj(vec![(
            "nodes",
            obj(vec![
                ("root", obj(vec![("inputs", obj(vec![("nixpkgs", s("nixpkgs")), ("lib", Json::Array(vec![s("nixpkgs")]))]))])),
                ("nixpkgs", obj(vec![("locked", obj(vec![("rev", s("r1"))]))])),
            ]),
        )]),
    )]);
    update_input_in_lock(&mut d, "hm", "github:nix-community/home-manager", &prefetch, true, &vec![], Some(&metadata));
    assert_eq!(text_at(&d, &["nodes", "root", "inputs", "hm"]), Some("hm".to_string()));
    assert_eq!(text_at(&d, &["nodes", "nixpkgs_2", "locked", "rev"]), Some("r1".to_string()));
    assert_eq!(at(&d, &["nodes", "nixpkgs"]).and_then(|n| n.as_object()).map(|o| o.len()), Some(0));
    assert_eq!(text_at(&d, &["nodes", "hm", "inputs", "nixpkgs"]), Some("nixpkgs_2".to_string()));
    assert_eq!(texts(at(&d, &["nodes", "hm", "inputs", "lib"]).unwrap()), vec!["nixpkgs"]);
}

#[test]
fn nested_follows_override() {
    let mut d = default_lock_data();
    let mut node = obj(vec![]);
    let locks = obj(vec![(
        "nodes",
        obj(vec![
            ("root", obj(vec![("inputs", obj(vec![("nixpkgs", s("nixpkgs"))]))])),
            ("nixpkgs", obj(vec![])),
        ]),
    )]);
    let nested = vec![("nixpkgs".to_string(), "nixpkgs".to_string())];
    merge_transitive_locks(&mut d, "hm", &mut node, &locks, &nested);
    assert!(at(&d, &["nodes", "nixpkgs"]).is_none());
    assert_eq!(texts(at(&node, &["inputs", "nixpkgs"]).unwrap()), vec!["nixpkgs"]);
}

#[test]
fn planning_inputs() {
    let mut d = default_lock_data();
    let a = args();
    assert!(matches!(plan_input(&d, &input("u", None, Some("nixpkgs")), &a), LockStep::Follow(f) if f == "nixpkgs"));
    assert!(matches!(plan_input(&d, &input("x", None, None), &a), LockStep::Skip));
    assert!(matches!(plan_input(&d, &input("x", Some("github:a/b"), None), &a), LockStep::Fetch(u) if u == "github:a/b"));
    update_follows_in_lock(&mut d, "x", "y");
    assert!(matches!(plan_input(&d, &input("x", Some("github:a/b"), None), &a), LockStep::Skip));
    let mut all = args();
    all.update_all = true;
    assert!(matches!(plan_input(&d, &input("x", Some("github:a/b"), None), &all), LockStep::Fetch(_)));
    let mut named = args();
    named.update_inputs = vec!["x".to_string()];
    assert!(matches!(plan_input(&d, &input("x", Some("github:a/b"), None), &named), LockStep::Fetch(_)));
    let mut over = args();
    over.override_inputs = vec![("x".to_string(), "github:c/d".to_string())];
    assert!(matches!(plan_input(&d, &input("x", Some("github:a/b"), None), &over), LockStep::Fetch(u) if u == "github:c/d"));
}

#[test]
fn inputs_from_evaluator() {
    let i = flake_input_from(
        Some("nixpkgs".to_string()),
        Some("github:NixOS/nixpkgs".to_string()),
        Some("null".to_string()),
        None,
        &vec![(Some("a".to_string()), Some("b".to_string())), (None, Some("c".to_string()))],
    )
    .unwrap();
    assert_eq!(i.name, "nixpkgs");
    assert_eq!(i.url, Some("github:NixOS/nixpkgs".to_string()));
    assert_eq!(i.follows, None);
    assert!(i.flake);
    assert_eq!(i.nested_follows, vec![("a".to_string(), "b".to_string())]);
    assert!(flake_input_from(Some(String::new()), None, None, None, &vec![]).is_none());
    assert!(flake_input_from(None, None, None, None, &vec![]).is_none());
    let j = flake_input_from(Some("x".to_string()), Some(String::new()), None, Some(false), &vec![]).unwrap();
    assert_eq!(j.url, None);
    assert!(!j.flake);
}

#[test]
fn pairs_lookup() {
    let v = vec![("a".to_string(), "1".to_string()), ("a".to_string(), "2".to_string())];
    assert_eq!(find_pair(&v, "a"), Some(&"1".to_string()));
    assert_eq!(find_pair(&v, "b"), None);
}

#[test]
fn inputs_expression_names_the_flake() {
    let e = inputs_expr("/src/proj");
    assert!(e.contains("flake = import /src/proj/flake.nix;"));
    assert!(e.contains("map getInfo (builtins.attrNames inputs)"));
}

#[test]
fn malformed_locked_entry_is_detected() {
    let bad = obj(vec![("hash", s("sha256-x")), ("locked", s("oops")), ("original", obj(vec![]))]);
    assert!(url_lock_fails("github:a/b", &bad));
    assert!(!url_lock_fails("./local", &bad));
    let no_hash = obj(vec![("locked", s("oops")), ("original", obj(vec![]))]);
    assert!(!url_lock_fails("github:a/b", &no_hash));
    let fine = obj(vec![("hash", s("sha256-x")), ("locked", obj(vec![])), ("original", obj(vec![]))]);
    assert!(!url_lock_fails("github:a/b", &fine));
}

#[test]
fn lock_data_shapes_that_take_nodes() {
    assert!(nodes_accept_new(&default_lock_data()));
    assert!(nodes_accept_new(&Json::Null));
    assert!(!nodes_accept_new(&s("x")));
    assert!(!nodes_accept_new(&obj(vec![("nodes", Json::Array(vec![]))])));
    assert!(root_can_refer_to(&default_lock_data(), "nixpkgs"));
    let bad_root = obj(vec![("nodes", obj(vec![("root", obj(vec![("inputs", s("no"))]))]))]);
    assert!(!root_can_refer_to(&bad_root, "nixpkgs"));
}

#[test]
fn storing_a_node_then_referring_to_it() {
    let mut d = default_lock_data();
    let info = obj(vec![
        ("hash", s("sha256-abc")),
        ("locked", obj(vec![("type", s("github")), ("owner", s("o")), ("repo", s("r"))])),
        ("original", obj(vec![("type", s("github")), ("owner", s("o")), ("repo", s("r"))])),
    ]);
    store_input_node(&mut d, "dep", "github:o/r", &info, false, &vec![], None);
    assert_eq!(text_at(&d, &["nodes", "dep", "locked", "narHash"]), Some("sha256-abc".to_string()));
    assert!(at(&d, &["nodes", "root", "inputs", "dep"]).is_none());
    refer_input_from_root(&mut d, "dep");
    assert_eq!(text_at(&d, &["nodes", "root", "inputs", "dep"]), Some("dep".to_string()));
    let mut e = default_lock_data();
    update_input_in_lock(&mut e, "dep", "github:o/r", &info, false, &vec![], None);
    assert_eq!(text_at(&e, &["nodes", "dep", "locked", "narHash"]), Some("sha256-abc".to_string()));
    assert_eq!(text_at(&e, &["nodes", "root", "inputs", "dep"]), Some("dep".to_string()));
    assert_eq!(text_at(&e, &["nodes", "dep", "original", "repo"]), text_at(&d, &["nodes", "dep", "original", "repo"]));
}

#[test]
fn assignable_paths() {
    let j = obj(vec![("a", obj(vec![("b", s("x"))])), ("n", Json::Null)]);
    let p = |v: &[&str]| v.iter().map(|x| x.to_string()).collect::<Vec<String>>();
    assert!(j.assignable_along(&p(&["a", "c", "d"])));
    assert!(j.assignable_along(&p(&["a", "b"])));
    assert!(!j.assignable_along(&p(&["a", "b", "c"])));
    assert!(j.assignable_along(&p(&["n", "x", "y"])));
    assert!(!s("x").assignable_along(&p(&["k"])));
    assert!(s("x").assignable_along(&p(&[])));
}
