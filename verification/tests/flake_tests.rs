use trix::cli::flake::check::{
    check_build_command, check_report_lines, failed_checks_message, no_checks_message, remote_check_command,
};
use trix::cli::flake::common::{bold, magenta_bold};
use trix::cli::flake::init::{
    optional_eval_output, parse_template_info, split_template_ref, template_attr_path, template_eval_exprs,
    template_report_lines, template_selector, unwrap_template_info, TemplateCopy,
};
use trix::cli::flake::metadata::{
    delegate_command, description_command, empty_locks_json, extract_local_metadata, format_locked_ref, local_metadata, MetadataError,
    format_timestamp, format_unlocked_input, locked_input_url, locked_last_modified, metadata_head_lines,
    print_inputs_tree, short_revision, timestamp_text, with_lock_time, FlakeLock, GitInfo, InputRef, LockNode, LockedRef,
};
use trix::cli::flake::show::command::{cmd_show, format_output_description, has_displayable_content, print_flake_outputs};
use trix::cli::flake::show::{
    format_output_type, has_displayable_content as shows_content, print_flake_outputs as typed_outputs, remote_show_command,
    show_header, ShowArgs,
};
use trix::cli::flake::update::{update_lock_args, update_message, UpdateArgs};
use trix::json::Json;
use trix::nix::ResolvedInstallable;

fn s(t: &str) -> Json {
    Json::Str(t.to_string())
}

fn obj(ms: Vec<(&str, Json)>) -> Json {
    Json::Object(ms.into_iter().map(|(k, v)| (k.to_string(), v)).collect())
}

fn strings(v: &[&str]) -> Vec<String> {
    v.iter().map(|x| x.to_string()).collect()
}

fn text_at(j: &Json, path: &[&str]) -> Option<String> {
    let mut cur = j;
    for k in path {
        cur = cur.get(k)?;
    }
    cur.as_str().cloned()
}

#[test]
fn template_references() {
    assert_eq!(split_template_ref("templates#rust"), ("github:NixOS/templates".to_string(), "rust".to_string()));
    assert_eq!(split_template_ref("github:me/t"), ("github:me/t".to_string(), "default".to_string()));
    assert_eq!(split_template_ref("a#b#c"), ("a#b".to_string(), "c".to_string()));
    assert_eq!(template_attr_path("default"), strings(&["defaultTemplate"]));
    assert_eq!(template_attr_path("rust"), strings(&["templates", "rust"]));
    assert_eq!(template_selector("default"), "outputs.defaultTemplate or outputs.templates.default");
    assert_eq!(template_selector("rust"), "outputs.templates.rust");
}

#[test]
fn template_expressions() {
    let (p, d, w) = template_eval_exprs("/nix/store/x", &strings(&["templates", "rust"]));
    assert_eq!(p, "/nix/store/x#templates.rust.path");
    assert_eq!(d, "/nix/store/x#templates.rust.description or null");
    assert_eq!(w, "/nix/store/x#templates.rust.welcomeText or null");
    assert_eq!(optional_eval_output("null"), None);
    assert_eq!(optional_eval_output(""), None);
    assert_eq!(optional_eval_output("hi"), Some("hi".to_string()));
}

#[test]
fn template_info_unwrapped() {
    assert_eq!(unwrap_template_info("\"a \\\"b\\\" c\\\\d\""), "a \"b\" c\\d");
    assert_eq!(unwrap_template_info("plain"), "plain");
    assert_eq!(
        parse_template_info("\"/nix/store/t@@@A template@@@Welcome\""),
        Some(("/nix/store/t".to_string(), "A template".to_string(), "Welcome".to_string()))
    );
    assert_eq!(parse_template_info("\"only@@@two\""), None);
}

#[test]
fn template_copy_counts() {
    let mut t = TemplateCopy::new(false);
    assert!(t.should_copy(false));
    t.copied_one();
    assert!(!t.should_copy(true));
    assert_eq!((t.copied, t.skipped), (1, 1));
    assert_eq!(
        template_report_lines(&t, "templates#rust", ".", "Hello"),
        strings(&["Initialized templates#rust in current directory", "(skipped 1 existing files)", "\nHello"])
    );
    let mut n = TemplateCopy::new(true);
    assert!(n.should_copy(true));
    n.copied_one();
    assert_eq!(template_report_lines(&n, "t", "dir", ""), strings(&["Created t in dir"]));
    assert!(template_report_lines(&TemplateCopy::new(false), "t", "d", "").is_empty());
}

#[test]
fn displayable_outputs() {
    assert!(!has_displayable_content(&obj(vec![])));
    assert!(has_displayable_content(&s("x")));
    assert!(has_displayable_content(&obj(vec![("a", Json::Null)])));
    assert!(has_displayable_content(&obj(vec![("a", obj(vec![("_type", s("derivation"))]))])));
    assert!(!has_displayable_content(&obj(vec![("a", obj(vec![])), ("b", obj(vec![("c", obj(vec![]))]))])));
}

#[test]
fn output_descriptions() {
    let d = |ms: Vec<(&str, Json)>| match obj(ms) {
        Json::Object(v) => format_output_description(&v),
        _ => unreachable!(),
    };
    assert_eq!(d(vec![("_type", s("derivation")), ("_name", s("hello")), ("_category", s("packages"))]), "package 'hello'");
    assert_eq!(
        d(vec![("_type", s("derivation")), ("_name", s("sh")), ("_category", s("devShells"))]),
        "development environment 'sh'"
    );
    assert_eq!(d(vec![("_type", s("derivation")), ("_name", s("x"))]), "derivation 'x'");
    assert_eq!(d(vec![("_type", s("derivation"))]), "derivation");
    assert_eq!(d(vec![("_type", s("app"))]), "app");
    assert_eq!(d(vec![("_type", s("overlay"))]), "\x1b[35;1mNixpkgs overlay\x1b[0m");
    assert_eq!(d(vec![("_type", s("configuration"))]), "NixOS configuration");
    assert_eq!(d(vec![("_type", s("weird"))]), "weird");
    assert_eq!(d(vec![]), "unknown");
}

#[test]
fn output_tree() {
    let outputs = obj(vec![
        (
            "packages",
            obj(vec![(
                "x86_64-linux",
                obj(vec![("hello", obj(vec![("_type", s("derivation")), ("_name", s("hello-2.12"))]))]),
            )]),
        ),
        ("empty", obj(vec![])),
        ("other", obj(vec![("_omitted", Json::Bool(true))])),
    ]);
    let g = |t: &str| format!("\x1b[32;1m{}\x1b[0m", t);
    let b = |t: &str| format!("\x1b[1m{}\x1b[0m", t);
    assert_eq!(
        print_flake_outputs(&outputs, ""),
        vec![
            format!("{}{}", g("├───"), b("packages")),
            format!("{}   {}{}", g("│"), g("└───"), b("x86_64-linux")),
            format!("{}       {}{}: derivation 'hello-2.12'", g("│"), g("└───"), b("hello")),
            format!("{}{} \x1b[35;1momitted\x1b[0m (use '--all-systems' to show)", g("└───"), b("other")),
        ]
    );
    assert_eq!(show_header(true, "/src"), "\x1b[1mgit+file:///src\x1b[0m");
    assert_eq!(show_header(false, "/src"), "\x1b[1mpath:/src\x1b[0m");
}

#[test]
fn show_remote_flakes() {
    let local = ResolvedInstallable { is_local: true, flake_ref: None, attr_part: String::new(), flake_dir: None };
    assert!(cmd_show(None, false, false, &local).is_none());
    let remote = ResolvedInstallable {
        is_local: false,
        flake_ref: Some("github:a/b".to_string()),
        attr_part: String::new(),
        flake_dir: None,
    };
    let c = cmd_show(Some("b"), true, true, &remote).unwrap();
    assert_eq!(c.program, "nix");
    assert_eq!(c.args, strings(&["flake", "show", "github:a/b", "--all-systems", "--legacy"]));
}

#[test]
fn local_metadata_of_dirty_repository() {
    let g = GitInfo { rev: "abcdef0123".to_string(), short_rev: "abcdef0".to_string(), is_dirty: true, last_modified: None };
    let m = extract_local_metadata("/src", &Some("A flake".to_string()), Some(42), &Some(g), None);
    assert_eq!(text_at(&m, &["locked", "dirtyRev"]), Some("abcdef0123-dirty".to_string()));
    assert_eq!(text_at(&m, &["locked", "url"]), Some("file:///src".to_string()));
    assert_eq!(text_at(&m, &["originalUrl"]), Some("git+file:///src".to_string()));
    assert_eq!(text_at(&m, &["dirtyRevision"]), Some("abcdef0123-dirty".to_string()));
    assert_eq!(text_at(&m, &["description"]), Some("A flake".to_string()));
    assert_eq!(m.get("lastModified").and_then(|v| v.as_u64()), Some(42));
    assert_eq!(text_at(&m, &["locks", "root"]), Some("root".to_string()));
}

#[test]
fn local_metadata_outside_git() {
    let m = extract_local_metadata("/p", &None, None, &None, Some(obj(vec![("version", Json::UInt(7))])));
    assert_eq!(text_at(&m, &["locked", "type"]), Some("path".to_string()));
    assert_eq!(text_at(&m, &["resolvedUrl"]), Some("path:/p".to_string()));
    assert!(m.get("lastModified").is_none());
    assert!(m.get("description").is_none());
    assert_eq!(m.get("locks").and_then(|l| l.get("version")).and_then(|v| v.as_u64()), Some(7));
    assert_eq!(text_at(&empty_locks_json(), &["root"]), Some("root".to_string()));
}

#[test]
fn locked_references() {
    let gh = LockedRef::GitHub { owner: "o".to_string(), repo: "r".to_string(), rev: "abc".to_string(), last_modified: None };
    assert_eq!(format_locked_ref(&gh), "github:o/r/abc");
    let git = LockedRef::Git { url: "https://x/y".to_string(), rev: None, dirty_rev: Some("d-dirty".to_string()), last_modified: None };
    assert_eq!(format_locked_ref(&git), "git+https://x/y?rev=d-dirty");
    assert_eq!(format_locked_ref(&LockedRef::Path { path: "/a".to_string(), last_modified: None }), "path:/a");
    assert_eq!(format_locked_ref(&LockedRef::Indirect { id: "nixpkgs".to_string() }), "flake:nixpkgs");
    assert_eq!(format_locked_ref(&LockedRef::Tarball { url: "https://t.tgz".to_string() }), "https://t.tgz");
}

#[test]
fn timestamps() {
    assert_eq!(format_timestamp(0), "1970-01-01 00:00:00");
    assert_eq!(format_timestamp(1700000000), "2023-11-14 22:13:20");
    assert_eq!(timestamp_text(5, None), "5");
    assert_eq!(timestamp_text(5, Some("then".to_string())), "then");
}

#[test]
fn metadata_head() {
    let m = obj(vec![("description", s("D")), ("path", s("/p")), ("lastModified", Json::UInt(0))]);
    assert_eq!(
        metadata_head_lines(false, &m),
        strings(&["Description:   D", "Path:          /p", "Last modified: 1970-01-01 00:00:00"])
    );
    assert_eq!(metadata_head_lines(true, &obj(vec![("path", s("/p"))])), strings(&["\x1b[1mPath:\x1b[0m          /p"]));
}

#[test]
fn metadata_commands() {
    let c = description_command("/src");
    assert_eq!(c.args, strings(&["eval", "--raw", "--impure", "--expr", "(import /src/flake.nix).description or null"]));
    assert_eq!(delegate_command("github:a/b", true).args, strings(&["flake", "metadata", "--json", "github:a/b"]));
    assert_eq!(delegate_command("x", false).args, strings(&["flake", "metadata", "x"]));
}

#[test]
fn input_urls() {
    assert_eq!(format_unlocked_input(&obj(vec![("type", s("github")), ("owner", s("o")), ("repo", s("r"))])), "github:o/r");
    assert_eq!(
        format_unlocked_input(&obj(vec![("type", s("github")), ("owner", s("o")), ("repo", s("r")), ("ref", s("main"))])),
        "github:o/r/main"
    );
    assert_eq!(format_unlocked_input(&obj(vec![("type", s("path")), ("path", s("/x"))])), "path:/x");
    assert_eq!(format_unlocked_input(&obj(vec![])), "unknown");
    let node = obj(vec![(
        "locked",
        obj(vec![
            ("type", s("github")),
            ("owner", s("o")),
            ("repo", s("r")),
            ("rev", s("abc")),
            ("narHash", s("sha256-h")),
            ("lastModified", Json::UInt(99)),
        ]),
    )]);
    assert_eq!(locked_input_url(&node), "github:o/r/abc?narHash=sha256-h");
    assert_eq!(locked_last_modified(&node), Some(99));
    assert_eq!(locked_input_url(&obj(vec![])), "");
    assert_eq!(locked_last_modified(&obj(vec![])), None);
    assert_eq!(with_lock_time("u".to_string(), Some("when")), "u (when)");
    assert_eq!(with_lock_time("u".to_string(), None), "u");
}

#[test]
fn check_reports() {
    let rs = vec![("a".to_string(), true), ("b".to_string(), false)];
    let (lines, failed) = check_report_lines(&rs);
    assert_eq!(lines, strings(&["checking a: ok", "checking b: FAILED", "", "1 passed, 1 failed"]));
    assert_eq!(failed, 1);
    assert_eq!(failed_checks_message(2), "2 check(s) failed");
    assert_eq!(
        remote_check_command("github:a/b").args,
        strings(&["--extra-experimental-features", "nix-command flakes", "flake", "check", "github:a/b"])
    );
    assert_eq!(check_build_command("/nix/store/x.drv").args, strings(&["build", "/nix/store/x.drv^*", "--no-link"]));
}

#[test]
fn updates() {
    let a = update_lock_args(UpdateArgs { flake_ref: ".".to_string(), inputs: vec![], override_inputs: strings(&["n", "github:x/y"]) });
    assert!(a.update_all && !a.dry_run);
    assert_eq!(a.override_inputs, vec![("n".to_string(), "github:x/y".to_string())]);
    let b = update_lock_args(UpdateArgs { flake_ref: "f".to_string(), inputs: strings(&["n"]), override_inputs: vec![] });
    assert!(!b.update_all);
    assert_eq!(b.update_inputs, strings(&["n"]));
    assert_eq!(update_message(Some(0), true, false), Some("Input is already up to date.".to_string()));
    assert_eq!(update_message(Some(0), false, false), Some("All inputs are up to date.".to_string()));
    assert_eq!(update_message(Some(0), false, true), None);
    assert_eq!(update_message(Some(3), false, false), Some("Updated 3 input(s).".to_string()));
    assert_eq!(update_message(None, false, false), None);
}

#[test]
fn flake_styles() {
    assert_eq!(bold("x"), "\x1b[1mx\x1b[0m");
    assert_eq!(magenta_bold("x"), "\x1b[35;1mx\x1b[0m");
}

fn node(inputs: Vec<(&str, InputRef)>, locked: Option<LockedRef>) -> LockNode {
    LockNode { inputs: inputs.into_iter().map(|(k, v)| (k.to_string(), v)).collect(), locked }
}

fn direct(n: &str) -> InputRef {
    InputRef::Direct(n.to_string())
}

#[test]
fn inputs_tree_with_follows() {
    let lock = FlakeLock {
        root: "root".to_string(),
        nodes: vec![
            ("root".to_string(), node(vec![("utils", direct("utils")), ("nixpkgs", direct("nixpkgs"))], None)),
            (
                "nixpkgs".to_string(),
                node(
                    vec![],
                    Some(LockedRef::GitHub {
                        owner: "NixOS".to_string(),
                        repo: "nixpkgs".to_string(),
                        rev: "abc".to_string(),
                        last_modified: Some(0),
                    }),
                ),
            ),
            (
                "utils".to_string(),
                node(
                    vec![("nixpkgs", InputRef::Follows(strings(&["nixpkgs"])))],
                    Some(LockedRef::Path { path: "/u".to_string(), last_modified: None }),
                ),
            ),
        ],
    };
    assert_eq!(
        print_inputs_tree(false, &lock),
        strings(&[
            "Inputs:",
            "\u{251c}\u{2500}\u{2500}\u{2500}nixpkgs: github:NixOS/nixpkgs/abc (1970-01-01 00:00:00)",
            "\u{2514}\u{2500}\u{2500}\u{2500}utils: path:/u",
            "    \u{2514}\u{2500}\u{2500}\u{2500}nixpkgs follows input 'nixpkgs'",
        ])
    );
    let coloured = print_inputs_tree(true, &lock);
    assert_eq!(coloured[0], "\x1b[1mInputs:\x1b[0m");
    assert_eq!(
        coloured[3],
        "    \x1b[36m\u{2514}\u{2500}\u{2500}\u{2500}\x1b[39m\x1b[1mnixpkgs\x1b[0m\x1b[2m follows input 'nixpkgs'\x1b[0m"
    );
}

#[test]
fn inputs_tree_shows_each_node_once() {
    let lock = FlakeLock {
        root: "root".to_string(),
        nodes: vec![
            ("root".to_string(), node(vec![("a", direct("a"))], None)),
            ("a".to_string(), node(vec![("b", direct("b"))], None)),
            ("b".to_string(), node(vec![("a", direct("a")), ("gone", direct("missing"))], None)),
        ],
    };
    assert_eq!(
        print_inputs_tree(false, &lock),
        strings(&[
            "Inputs:",
            "\u{2514}\u{2500}\u{2500}\u{2500}a: ",
            "    \u{2514}\u{2500}\u{2500}\u{2500}b: ",
            "        \u{251c}\u{2500}\u{2500}\u{2500}a: ",
        ])
    );
    let empty = FlakeLock { root: "root".to_string(), nodes: vec![("root".to_string(), node(vec![], None))] };
    assert!(print_inputs_tree(false, &empty).is_empty());
    let rootless = FlakeLock { root: "r".to_string(), nodes: vec![] };
    assert!(print_inputs_tree(false, &rootless).is_empty());
}

#[test]
fn short_revisions() {
    assert_eq!(short_revision("0123456789abcdef"), "0123456");
    assert_eq!(short_revision("abc"), "abc");
}

#[test]
fn typed_outputs_tree() {
    let outputs = obj(vec![
        ("apps", obj(vec![])),
        (
            "packages",
            obj(vec![(
                "x86_64-linux",
                obj(vec![
                    ("default", obj(vec![("type", s("derivation")), ("name", s("hello-2.12"))])),
                    ("odd", Json::UInt(3)),
                ]),
            )]),
        ),
        ("templates", obj(vec![("t", obj(vec![("type", s("template")), ("description", s("A"))]))])),
    ]);
    let g = |t: &str| format!("\x1b[32;1m{}\x1b[0m", t);
    let b = |t: &str| format!("\x1b[1m{}\x1b[0m", t);
    assert_eq!(
        typed_outputs(&outputs, ""),
        vec![
            format!("{}{}", g("├───"), b("packages")),
            format!("{}   {}{}", g("│"), g("└───"), b("x86_64-linux")),
            format!("{}       {}{}: package 'hello-2.12'", g("│"), g("├───"), b("default")),
            format!("{}       {}{}", g("│"), g("└───"), b("odd")),
            format!("{}{}", g("└───"), b("templates")),
            format!("    {}{}: template: A", g("└───"), b("t")),
        ]
    );
    assert!(!shows_content(&obj(vec![])));
    assert!(shows_content(&obj(vec![("type", Json::Null)])));
    assert!(!shows_content(&obj(vec![("a", obj(vec![]))])));
}

#[test]
fn output_types() {
    let info = vec![("name".to_string(), s("x"))];
    assert_eq!(format_output_type("derivation", &info), "package 'x'");
    assert_eq!(format_output_type("derivation", &vec![]), "package 'unknown'");
    assert_eq!(format_output_type("nixos-module", &vec![]), "\x1b[35;1mNixOS module\x1b[0m");
    assert_eq!(format_output_type("template", &vec![("description".to_string(), s(""))]), "template");
    assert_eq!(format_output_type("other", &vec![]), "other");
}

#[test]
fn remote_show() {
    let a = ShowArgs { flake_ref: ".".to_string(), json: true, all_systems: false, legacy: true };
    let c = remote_show_command(&a, "github:a/b");
    assert_eq!(
        c.args,
        strings(&["--extra-experimental-features", "nix-command flakes", "flake", "show", "github:a/b", "--json", "--legacy"])
    );
}

#[test]
fn no_checks_for_system() {
    assert_eq!(no_checks_message("x86_64-linux"), "No checks found for x86_64-linux");
}

#[test]
fn directory_without_flake_nix_is_refused() {
    let r = local_metadata("/p", false, &None, Some(7), &None, None);
    assert!(matches!(r, Err(MetadataError::NoFlakeNix)));
    assert_eq!(MetadataError::NoFlakeNix.message("/p"), "no flake.nix found in /p");
    let m = local_metadata("/p", true, &None, Some(7), &None, None).ok().unwrap();
    assert_eq!(text_at(&m, &["originalUrl"]), Some("path:/p".to_string()));
    assert_eq!(text_at(&m, &["locked", "path"]), Some("/p".to_string()));
    assert!(matches!(m.get("lastModified"), Some(Json::UInt(7))));
    assert!(m.get("locks").is_some());
}
