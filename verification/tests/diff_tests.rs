use std::cmp::Ordering;
use trix::cli::diff::{
    compare_derivations, compare_manifests, derivation_diff_lines, derivation_show_command,
    extract_input_name, fresh_texts, generation_diff_lines, group_inputs_by_name, holds_text,
    parse_derivation, parse_u32, run, select_generations, texts_eq, version_cmp, version_order_code,
    DiffArgs, DiffMode, GenerationError, ParsedDerivation, drv_source, DrvSource, deriver_query_command,
    path_info_command, drv_path_eval_command, deriver_from_output, DeriverError, printed_drv_path,
};
use trix::text::trim_text;
use trix::json::Json;
use trix::profile::{Manifest, ManifestElement};

const HASH: &str = "0123456789abcdfghijklmnpqrsvwxyz";
const HASH2: &str = "zyxwvsrqpnmlkjihgfdcba9876543210";

fn element(path: &str) -> ManifestElement {
    ManifestElement {
        active: true,
        store_paths: vec![path.to_string()],
        attr_path: None,
        original_url: None,
        url: None,
    }
}

fn manifest(es: &[(&str, &str)]) -> Manifest {
    Manifest::from_entries(3, es.iter().map(|(n, p)| (n.to_string(), element(p))).collect())
}

fn p(h: &str, name: &str) -> String {
    format!("/nix/store/{}-{}", h, name)
}

fn strings(v: &[&str]) -> Vec<String> {
    v.iter().map(|s| s.to_string()).collect()
}

#[test]
fn versions_compare_by_segments() {
    assert_eq!(version_cmp("1.10", "1.9"), Ordering::Greater);
    assert_eq!(version_cmp("1.0", "1.0.1"), Ordering::Less);
    assert_eq!(version_cmp("1.01", "1.1"), Ordering::Equal);
    assert_eq!(version_cmp("1.a", "1.b"), Ordering::Less);
    assert_eq!(version_cmp("2.0", "2.0"), Ordering::Equal);
    assert_eq!(version_order_code("3", "2"), 1);
    assert_eq!(version_order_code("2", "3"), -1);
}

#[test]
fn generations_compared_with_itself_show_nothing() {
    let m = manifest(&[("hello", &p(HASH, "hello-1.0")), ("zlib", &p(HASH, "zlib-1.3"))]);
    let d = compare_manifests(&m, &m);
    assert!(d.added.is_empty() && d.removed.is_empty() && d.rebuilt.is_empty());
    assert!(d.upgraded.is_empty() && d.downgraded.is_empty());
    assert_eq!(
        generation_diff_lines(false, 1, 1, &d),
        vec!["Comparing generation 1 \u{2192} 1", "", "No changes"]
    );
}

fn sample_generations() -> (Manifest, Manifest) {
    let left = manifest(&[
        ("hello", &p(HASH, "hello-1.0")),
        ("gone", &p(HASH, "gone-0.5")),
        ("same", &p(HASH, "same-1")),
        ("rb", &p(HASH, "rb-1.0")),
        ("down", &p(HASH, "down-2.0")),
    ]);
    let right = manifest(&[
        ("hello", &p(HASH, "hello-2.0")),
        ("same", &p(HASH, "same-1")),
        ("new", &p(HASH, "new-3.0")),
        ("rb", &p(HASH2, "rb-1.0")),
        ("down", &p(HASH, "down-1.5")),
    ]);
    (left, right)
}

#[test]
fn generation_changes_are_classified() {
    let (left, right) = sample_generations();
    let d = compare_manifests(&left, &right);
    assert_eq!(d.added.len(), 1);
    assert_eq!(d.added[0].name, "new");
    assert_eq!(d.added[0].version, "3.0");
    assert_eq!(d.removed.len(), 1);
    assert_eq!(d.removed[0].name, "gone");
    assert_eq!(d.upgraded.len(), 1);
    assert_eq!(d.upgraded[0].name, "hello");
    assert_eq!(d.upgraded[0].old_version, "1.0");
    assert_eq!(d.upgraded[0].new_version, "2.0");
    assert_eq!(d.downgraded.len(), 1);
    assert_eq!(d.downgraded[0].name, "down");
    assert_eq!(d.rebuilt.len(), 1);
    assert_eq!(d.rebuilt[0].name, "rb");
    assert_eq!(d.rebuilt[0].store_path, p(HASH2, "rb-1.0"));
}

#[test]
fn generation_report_lines() {
    let (left, right) = sample_generations();
    let d = compare_manifests(&left, &right);
    assert_eq!(
        generation_diff_lines(false, 1, 2, &d),
        vec![
            "Comparing generation 1 \u{2192} 2",
            "",
            "1 added, 1 removed, 1 upgraded, 1 downgraded, 1 rebuilt",
            "",
            "+ Added:",
            "  + new 3.0",
            "",
            "- Removed:",
            "  - gone 0.5",
            "",
            "\u{2191} Upgraded:",
            "  hello 1.0 \u{2192} 2.0",
            "",
            "\u{2193} Downgraded:",
            "  down 2.0 \u{2192} 1.5",
            "",
            "~ Rebuilt (same version, different derivation):",
            "  ~ rb 1.0",
        ]
    );
}

#[test]
fn generation_report_in_colour() {
    let m = manifest(&[]);
    let d = compare_manifests(&m, &m);
    let lines = generation_diff_lines(true, 3, 4, &d);
    assert_eq!(
        lines[0],
        "Comparing generation \x1b[1m3\x1b[0m \x1b[2m\u{2192}\x1b[0m \x1b[1m4\x1b[0m"
    );
    assert_eq!(lines[2], "\x1b[2mNo changes\x1b[0m");
}

#[test]
fn choosing_generations() {
    let g = vec![1u32, 2, 3];
    assert!(matches!(select_generations(&g, None, None), Ok((2, 3))));
    assert!(matches!(select_generations(&g, Some("1"), None), Ok((1, 3))));
    assert!(matches!(select_generations(&g, Some("1"), Some("2")), Ok((1, 2))));
    assert!(matches!(select_generations(&g, Some("x"), None), Err(GenerationError::BadLeft)));
    assert!(matches!(select_generations(&g, Some("1"), Some("y")), Err(GenerationError::BadRight)));
    assert!(matches!(select_generations(&g, None, Some("2")), Err(GenerationError::RightWithoutLeft)));
    assert!(matches!(select_generations(&g, Some("9"), None), Err(GenerationError::NotFound(9))));
    assert!(matches!(select_generations(&vec![], None, None), Err(GenerationError::NoGenerations)));
    assert!(matches!(select_generations(&vec![5], None, None), Err(GenerationError::NeedTwo)));
    assert!(matches!(select_generations(&vec![5, 5], None, None), Err(GenerationError::NoPrevious)));
}

#[test]
fn generation_error_messages() {
    assert_eq!(GenerationError::NotFound(7).message(), "Generation 7 not found");
    assert_eq!(GenerationError::NeedTwo.message(), "Need at least 2 generations to compare");
    assert_eq!(
        GenerationError::RightWithoutLeft.message(),
        "LEFT generation is required if RIGHT is specified"
    );
}

#[test]
fn parsing_u32() {
    assert_eq!(parse_u32("42"), Some(42));
    assert_eq!(parse_u32("4294967295"), Some(u32::MAX));
    assert_eq!(parse_u32("4294967296"), None);
    assert_eq!(parse_u32("-1"), None);
    assert_eq!(parse_u32(""), None);
}

#[test]
fn input_names() {
    assert_eq!(extract_input_name("/nix/store/abc-hello-2.0.drv"), "hello-2.0");
    assert_eq!(extract_input_name("/nix/store/nodash.drv"), "/nix/store/nodash.drv");
}

#[test]
fn inputs_grouped_by_package() {
    let inputs = vec![
        ("/nix/store/a-hello-1.0.drv".to_string(), strings(&["out"])),
        ("/nix/store/b-zlib-1.3.drv".to_string(), strings(&["out"])),
        ("/nix/store/c-hello-1.1.drv".to_string(), strings(&["out"])),
    ];
    assert_eq!(
        group_inputs_by_name(&inputs),
        vec![
            ("hello".to_string(), "/nix/store/c-hello-1.1.drv".to_string()),
            ("zlib".to_string(), "/nix/store/b-zlib-1.3.drv".to_string()),
        ]
    );
}

#[test]
fn text_list_helpers() {
    let a = strings(&["x", "y"]);
    assert!(holds_text(&a, "y"));
    assert!(!holds_text(&a, "z"));
    assert!(texts_eq(&a, &strings(&["x", "y"])));
    assert!(!texts_eq(&a, &strings(&["y", "x"])));
    assert_eq!(fresh_texts(&a, &strings(&["y", "z", "z", "w"])), strings(&["z", "w"]));
}

fn drv_json(inputs: &[&str], srcs: &[&str], builder: &str, env: &[(&str, &str)]) -> Json {
    let input_drvs = Json::Object(
        inputs
            .iter()
            .map(|i| {
                (
                    i.to_string(),
                    Json::Object(vec![(
                        "outputs".to_string(),
                        Json::Array(vec![Json::Str("out".to_string())]),
                    )]),
                )
            })
            .collect(),
    );
    let body = Json::Object(vec![
        ("args".to_string(), Json::Array(vec![Json::Str("-e".to_string())])),
        ("builder".to_string(), Json::Str(builder.to_string())),
        (
            "env".to_string(),
            Json::Object(env.iter().map(|(k, v)| (k.to_string(), Json::Str(v.to_string()))).collect()),
        ),
        ("inputDrvs".to_string(), input_drvs),
        (
            "inputSrcs".to_string(),
            Json::Array(srcs.iter().map(|s| Json::Str(s.to_string())).collect()),
        ),
        ("system".to_string(), Json::Str("x86_64-linux".to_string())),
    ]);
    Json::Object(vec![("/nix/store/x.drv".to_string(), body)])
}

fn sample_derivations() -> (ParsedDerivation, ParsedDerivation) {
    let l = drv_json(
        &["/nix/store/aaa-hello-1.0.drv", "/nix/store/bbb-zlib-1.3.drv"],
        &["/nix/store/s1-builder.sh"],
        "/bin/bash",
        &[("name", "hello"), ("out", "/x"), ("version", "1.0")],
    );
    let r = drv_json(
        &["/nix/store/ccc-hello-1.1.drv", "/nix/store/ddd-curl-8.0.drv"],
        &["/nix/store/s2-builder.sh"],
        "/bin/sh",
        &[("name", "hello"), ("out", "/y"), ("version", "1.1"), ("extra", "1")],
    );
    (parse_derivation(&l).unwrap(), parse_derivation(&r).unwrap())
}

#[test]
fn derivation_is_read_from_json() {
    let (l, _) = sample_derivations();
    assert_eq!(l.platform, "x86_64-linux");
    assert_eq!(l.builder, "/bin/bash");
    assert_eq!(l.args, strings(&["-e"]));
    assert_eq!(l.input_srcs, strings(&["/nix/store/s1-builder.sh"]));
    assert_eq!(l.input_drvs.len(), 2);
    assert_eq!(l.input_drvs[0].0, "/nix/store/aaa-hello-1.0.drv");
    assert_eq!(l.input_drvs[0].1, strings(&["out"]));
    assert_eq!(l.env.len(), 3);
    assert!(parse_derivation(&Json::Object(vec![])).is_none());
    assert!(parse_derivation(&Json::Null).is_none());
}

#[test]
fn derivations_compared() {
    let (l, r) = sample_derivations();
    let d = compare_derivations(&l, &r);
    assert!(d.platform_changed.is_none());
    assert_eq!(d.builder_changed, Some(("/bin/bash".to_string(), "/bin/sh".to_string())));
    assert!(!d.args_changed);
    assert_eq!(d.added_inputs, strings(&["hello-1.1", "curl-8.0"]));
    assert_eq!(d.removed_inputs, strings(&["hello-1.0", "zlib-1.3"]));
    assert_eq!(d.changed_inputs.len(), 1);
    assert_eq!(d.changed_inputs[0].name, "hello");
    assert_eq!(d.added_srcs, strings(&["/nix/store/s2-builder.sh"]));
    assert_eq!(d.removed_srcs, strings(&["/nix/store/s1-builder.sh"]));
    assert_eq!(d.env_added, strings(&["extra"]));
    assert!(d.env_removed.is_empty());
    assert_eq!(d.env_changed.len(), 1);
    assert_eq!(d.env_changed[0].key, "version");
    assert_eq!(d.env_changed[0].old_value, "1.0");
    assert_eq!(d.env_changed[0].new_value, "1.1");
}

#[test]
fn derivation_report_lines() {
    let (l, r) = sample_derivations();
    let d = compare_derivations(&l, &r);
    assert_eq!(
        derivation_diff_lines(false, "a", "b", &d),
        vec![
            "Comparing a \u{2192} b",
            "",
            "Builder: /bin/bash \u{2192} /bin/sh",
            "",
            "Input derivations:",
            "  + hello-1.1",
            "  + curl-8.0",
            "  - hello-1.0",
            "  - zlib-1.3",
            "  ~ hello hello-1.0 \u{2192} hello-1.1",
            "",
            "Input sources:",
            "  + /nix/store/s2-builder.sh",
            "  - /nix/store/s1-builder.sh",
            "",
            "Environment variables (2 changes):",
            "  + extra",
            "  ~ version",
        ]
    );
}

#[test]
fn derivation_compared_with_itself() {
    let (l, _) = sample_derivations();
    let d = compare_derivations(&l, &l);
    assert_eq!(
        derivation_diff_lines(false, "a", "a", &d),
        vec!["Comparing a \u{2192} a", "", "No significant differences"]
    );
}

#[test]
fn derivation_show() {
    let c = derivation_show_command("/nix/store/x.drv");
    assert_eq!(c.program, "nix");
    assert_eq!(c.args, strings(&["derivation", "show", "/nix/store/x.drv"]));
}

#[test]
fn diff_mode() {
    let mut a = DiffArgs { left: None, right: None, generation: true, profile: None, json: false, closure: false };
    assert!(matches!(run(&a), DiffMode::Generations));
    a.generation = false;
    assert!(matches!(run(&a), DiffMode::Derivations));
}

#[test]
fn derivation_sources() {
    assert!(matches!(drv_source("/nix/store/abc-hello.drv"), DrvSource::Derivation));
    assert!(matches!(drv_source("/nix/store/abc-hello"), DrvSource::StoreOutput));
    assert!(matches!(drv_source("nixpkgs#hello"), DrvSource::Installable));
    assert_eq!(deriver_query_command("/nix/store/o").args, strings(&["--query", "--deriver", "/nix/store/o"]));
    assert_eq!(deriver_query_command("/nix/store/o").program, "nix-store");
    assert_eq!(path_info_command("nixpkgs#hello").args, strings(&["path-info", "--derivation", "nixpkgs#hello"]));
    assert_eq!(drv_path_eval_command("nixpkgs#hello").args, strings(&["eval", "--raw", "nixpkgs#hello#.drvPath"]));
}

#[test]
fn derivers_read_from_output() {
    assert_eq!(deriver_from_output("  /nix/store/x.drv\n").ok(), Some("/nix/store/x.drv".to_string()));
    assert!(matches!(deriver_from_output("unknown-deriver\n"), Err(DeriverError::UnknownDeriver)));
    assert_eq!(DeriverError::UnknownDeriver.message("/nix/store/x"), "Deriver unknown for /nix/store/x");
    assert_eq!(printed_drv_path("\t/nix/store/y.drv \r\n"), "/nix/store/y.drv");
    assert_eq!(trim_text("\u{3000} a b \u{a0}"), "a b");
    assert_eq!(trim_text("   "), "");
}

#[test]
fn manifest_built_by_name_keeps_each_name_once() {
    let m = manifest(&[
        ("hello", &p(HASH, "hello-1.0")),
        ("zlib", &p(HASH, "zlib-1.3")),
        ("hello", &p(HASH2, "hello-2.0")),
    ]);
    let names: Vec<&str> = m.elements.iter().map(|(n, _)| n.as_str()).collect();
    assert_eq!(names, vec!["hello", "zlib"]);
    assert_eq!(m.elements[0].1.store_paths, vec![p(HASH2, "hello-2.0")]);
    let d = compare_manifests(&m, &m);
    assert!(d.added.is_empty() && d.removed.is_empty() && d.rebuilt.is_empty());
    assert!(d.upgraded.is_empty() && d.downgraded.is_empty());
}
