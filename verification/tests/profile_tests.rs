use trix::cli::profile::outcome::{added_message, removal_message, upgrade_message, wipe_message};
use trix::cli::profile::common::{
    cmd_wipe_history, extract_version, get_closure, get_package_versions, group_by_package,
    older_than_in_range, parse_older_than, parse_store_path, version_from_basename, OlderThanError,
};
use trix::cli::profile::diff_closures::{
    closure_change_line, closure_changes, closure_diff_header, ClosureChange,
};
use trix::cli::profile::history::{
    history_entry_lines, history_header, parse_generation_number, version_change_lines,
};
use trix::cli::profile::list::{
    find_generation, generation_not_found_message, list_lines, rollback_target, rolled_back_message, sort_generations,
};
use trix::profile::{first_path_of, Manifest, ManifestElement};

const HASH: &str = "0123456789abcdfghijklmnpqrsvwxyz";

fn store(name: &str) -> String {
    format!("/nix/store/{}-{}", HASH, name)
}

fn element(paths: &[&str], active: bool) -> ManifestElement {
    ManifestElement {
        active,
        store_paths: paths.iter().map(|p| p.to_string()).collect(),
        attr_path: None,
        original_url: None,
        url: None,
    }
}

fn pairs(v: &[(&str, &str)]) -> Vec<(String, String)> {
    v.iter().map(|(a, b)| (a.to_string(), b.to_string())).collect()
}

#[test]
fn store_path_name_and_version() {
    let p = store("hello-2.12.1");
    assert_eq!(parse_store_path(&p), Some(("hello".to_string(), "2.12.1".to_string())));
}

#[test]
fn store_path_without_version() {
    let p = store("source");
    assert_eq!(parse_store_path(&p), Some(("source".to_string(), String::new())));
}

#[test]
fn store_path_digit_not_after_dash() {
    let p = store("python3-3.11-env");
    assert_eq!(parse_store_path(&p), Some(("python3-3.11-env".to_string(), String::new())));
}

#[test]
fn store_path_without_dash_is_refused() {
    assert_eq!(parse_store_path("/nix/store/nodash"), None);
}

#[test]
fn version_from_hashed_basename() {
    assert_eq!(extract_version(&store("hello-2.12.1")), "2.12.1");
}

#[test]
fn version_falls_back_to_name() {
    assert_eq!(extract_version(&store("hello")), "hello");
    assert_eq!(extract_version(&store("my-tool")), "my-tool");
}

#[test]
fn version_of_short_path_is_the_path() {
    assert_eq!(extract_version("/nix/store/short-1.0"), "/nix/store/short-1.0");
}

#[test]
fn version_reads_the_last_segment() {
    // The file name is taken from the path, so the directories before it do
    // not count; a result equal to the argument would be the whole path.
    let p = store("zlib-1.3");
    let v = extract_version(&p);
    assert_eq!(v, "1.3");
    assert_ne!(v, p);
}

#[test]
fn version_from_basename_directly() {
    let b = format!("{}-git-2.44.0", HASH);
    assert_eq!(version_from_basename(&b, "unused"), "2.44.0");
    assert_eq!(version_from_basename("tiny", "/the/path"), "/the/path");
}

#[test]
fn package_versions_of_active_elements() {
    let m = Manifest {
        version: 3,
        elements: vec![
            ("hello".to_string(), element(&[&store("hello-2.12.1")], true)),
            ("off".to_string(), element(&[&store("off-1.0")], false)),
            ("bare".to_string(), element(&[], true)),
        ],
    };
    let v = get_package_versions(&m);
    assert_eq!(v, pairs(&[("hello", "2.12.1"), ("bare", "unknown")]));
}

#[test]
fn first_path_of_element() {
    assert_eq!(first_path_of(&element(&["/a", "/b"], true)), "/a");
    assert_eq!(first_path_of(&element(&[], true)), "");
}

#[test]
fn closure_lines() {
    assert_eq!(get_closure("/nix/store/a\n/nix/store/b\n"), vec!["/nix/store/a", "/nix/store/b"]);
    assert_eq!(get_closure(""), Vec::<String>::new());
}

#[test]
fn grouping_keeps_last_path_of_a_name() {
    let c = vec![store("hello-1.0"), store("hello-2.0"), "nodash".to_string(), store("zlib-1.3")];
    let g = group_by_package(&c);
    assert_eq!(
        g,
        vec![
            ("hello".to_string(), ("2.0".to_string(), store("hello-2.0"))),
            ("zlib".to_string(), ("1.3".to_string(), store("zlib-1.3"))),
        ]
    );
}

#[test]
fn older_than_units() {
    assert_eq!(parse_older_than("90s").ok(), Some(90));
    assert_eq!(parse_older_than("3m").ok(), Some(180));
    assert_eq!(parse_older_than("1h").ok(), Some(3600));
    assert_eq!(parse_older_than("30d").ok(), Some(2_592_000));
    assert_eq!(parse_older_than("2w").ok(), Some(1_209_600));
}

#[test]
fn older_than_defaults_to_days() {
    assert_eq!(parse_older_than("10").ok(), Some(864_000));
}

#[test]
fn older_than_reads_only_the_first_unit() {
    assert_eq!(parse_older_than("1dx").ok(), Some(86_400));
}

#[test]
fn older_than_bad_number() {
    assert!(matches!(parse_older_than("d"), Err(OlderThanError::InvalidNumber)));
    assert!(matches!(parse_older_than(""), Err(OlderThanError::InvalidNumber)));
    assert!(matches!(parse_older_than("99999999999999999999s"), Err(OlderThanError::InvalidNumber)));
}

#[test]
fn older_than_bad_unit() {
    match parse_older_than("5x") {
        Err(e) => {
            assert!(matches!(e, OlderThanError::InvalidUnit('x')));
            assert_eq!(e.message(), "Invalid unit in --older-than: x (expected s, m, h, d, w)");
        }
        Ok(_) => panic!("accepted a bad unit"),
    }
    assert_eq!(OlderThanError::InvalidNumber.message(), "Invalid number in --older-than");
}

#[test]
fn older_than_range() {
    assert!(older_than_in_range("30d"));
    assert!(older_than_in_range("5x"));
    assert!(!older_than_in_range("18446744073709551615w"));
    assert!(older_than_in_range("18446744073709551615s"));
}

#[test]
fn wipe_request() {
    let w = cmd_wipe_history(Some("1h"), true).ok().unwrap();
    assert_eq!(w.older_than_secs, Some(3600));
    assert!(w.dry_run);
    let w = cmd_wipe_history(None, false).ok().unwrap();
    assert_eq!(w.older_than_secs, None);
    assert!(!w.dry_run);
    assert!(cmd_wipe_history(Some("1y"), false).is_err());
}

#[test]
fn generation_numbers() {
    assert_eq!(parse_generation_number("profile-12-link"), Some(12));
    assert_eq!(parse_generation_number("profile-x-link"), None);
    assert_eq!(parse_generation_number("profile"), None);
    assert_eq!(parse_generation_number("other-12-link"), None);
}

#[test]
fn history_headers() {
    assert_eq!(
        history_header(3, false, "2024-01-02", Some(2)),
        "Version \x1b[1m3\x1b[0m (2024-01-02) <- 2:"
    );
    assert_eq!(
        history_header(1, true, "2024-01-01", None),
        "Version \x1b[32;1m1\x1b[0m (2024-01-01):"
    );
}

#[test]
fn history_version_changes() {
    let prev = pairs(&[("hello", "1.0"), ("old", "0.1"), ("same", "2")]);
    let curr = pairs(&[("same", "2"), ("hello", "2.0"), ("new", "3")]);
    assert_eq!(
        version_change_lines(&prev, &curr),
        vec!["  hello: 1.0 -> 2.0", "  new: \u{2205} -> 3", "  old: 0.1 -> \u{2205}"]
    );
}

#[test]
fn history_entry_without_changes() {
    let m = pairs(&[("hello", "1.0")]);
    assert_eq!(
        history_entry_lines("H".to_string(), &m, &m),
        vec!["H", "  No changes.", ""]
    );
    assert!(version_change_lines(&m, &m).is_empty());
}

#[test]
fn closure_change_detection() {
    let prev = vec![
        ("hello".to_string(), ("1.0".to_string(), "/p/hello-1.0".to_string())),
        ("gone".to_string(), ("0.1".to_string(), "/p/gone-0.1".to_string())),
        ("profile".to_string(), ("".to_string(), "/p/profile".to_string())),
        ("same".to_string(), ("1".to_string(), "/p/same-1".to_string())),
    ];
    let curr = vec![
        ("same".to_string(), ("1".to_string(), "/p/same-1".to_string())),
        ("hello".to_string(), ("2.0".to_string(), "/p/hello-2.0".to_string())),
        ("added".to_string(), ("5".to_string(), "/p/added-5".to_string())),
    ];
    let ch = closure_changes(&prev, &curr);
    assert_eq!(ch.len(), 3);
    assert!(matches!(&ch[0], ClosureChange::Added { name, version, .. } if name == "added" && version == "5"));
    assert!(matches!(&ch[1], ClosureChange::Removed { name, version, .. } if name == "gone" && version == "0.1"));
    assert!(matches!(&ch[2], ClosureChange::Changed { name, old_version, new_version, .. }
        if name == "hello" && old_version == "1.0" && new_version == "2.0"));
    assert!(closure_changes(&prev, &prev).is_empty());
}

#[test]
fn closure_change_lines() {
    let c = ClosureChange::Changed {
        name: "hello".to_string(),
        old_version: "1.0".to_string(),
        new_version: "2.0".to_string(),
        old_path: "/a".to_string(),
        new_path: "/b".to_string(),
    };
    assert_eq!(closure_change_line(&c, "+1.0 KiB"), "  hello: 1.0 -> 2.0, +1.0 KiB");
    let c = ClosureChange::Changed {
        name: "hello".to_string(),
        old_version: "1.0".to_string(),
        new_version: "1.0".to_string(),
        old_path: "/a".to_string(),
        new_path: "/b".to_string(),
    };
    assert_eq!(closure_change_line(&c, "0 B"), "  hello: 0 B");
    let c = ClosureChange::Added { name: "n".to_string(), version: "3".to_string(), path: "/c".to_string() };
    assert_eq!(closure_change_line(&c, "5 B"), "  n: \u{2205} -> 3, \x1b[31;1m+5 B\x1b[0m");
    let c = ClosureChange::Removed { name: "o".to_string(), version: "1".to_string(), path: "/d".to_string() };
    assert_eq!(closure_change_line(&c, "7 B"), "  o: 1 -> \u{2205}, -7 B");
    assert_eq!(closure_diff_header(4, 5), "Version 4 -> 5:");
}

#[test]
fn listing_elements() {
    let mut e = element(&["/nix/store/a", "/nix/store/b"], true);
    e.attr_path = Some("packages.x86_64-linux.hello".to_string());
    e.original_url = Some("flake:nixpkgs".to_string());
    e.url = Some("github:NixOS/nixpkgs/abc".to_string());
    let es = vec![("hello".to_string(), e), ("bare".to_string(), element(&[], true))];
    assert_eq!(
        list_lines(&es),
        vec![
            "Name:               \x1b[1mbare\x1b[0m",
            "",
            "Name:               \x1b[1mhello\x1b[0m",
            "Flake attribute:    packages.x86_64-linux.hello",
            "Original flake URL: flake:nixpkgs",
            "Locked flake URL:   github:NixOS/nixpkgs/abc",
            "Store paths:        /nix/store/a",
            "                    /nix/store/b",
        ]
    );
}

#[test]
fn listing_nothing_installed() {
    assert_eq!(list_lines(&Vec::new()), vec!["No packages installed."]);
}

#[test]
fn rollback_goes_to_the_previous_generation() {
    let gens = vec![(1, "/p-1".to_string()), (2, "/p-2".to_string()), (5, "/p-5".to_string())];
    assert_eq!(rollback_target(&gens, "/p-5"), Some(1));
    assert_eq!(rollback_target(&gens, "/p-1"), None);
    assert_eq!(rollback_target(&gens, "/other"), None);
    assert_eq!(rolled_back_message(2), "Rolled back to generation 2");
}

#[test]
fn generations_sorted_by_number() {
    let g = vec![(3, "c".to_string()), (1, "a".to_string()), (2, "b".to_string()), (1, "a2".to_string())];
    assert_eq!(
        sort_generations(g),
        vec![(1, "a".to_string()), (1, "a2".to_string()), (2, "b".to_string()), (3, "c".to_string())]
    );
    assert!(sort_generations(vec![]).is_empty());
}

#[test]
fn change_outcome_lines() {
    assert_eq!(added_message("hello"), "Added hello");
    assert_eq!(removal_message("hello", true), "Removed: hello");
    assert_eq!(removal_message("hello", false), "Package not found: hello");
    assert_eq!(upgrade_message(3, 7), "Upgraded 3 package(s)");
    assert_eq!(upgrade_message(0, 7), "All 7 package(s) up to date");
    assert_eq!(upgrade_message(0, 0), "No packages to upgrade");
    assert_eq!(wipe_message(0, true), "No profile versions to delete.");
    assert_eq!(wipe_message(12, true), "Would delete 12 version(s)");
    assert_eq!(wipe_message(1, false), "Deleted 1 version(s)");
}

#[test]
fn rollback_to_a_given_generation() {
    let gens: Vec<(u32, String)> =
        vec![(1, "/nix/store/a".to_string()), (3, "/nix/store/c".to_string()), (3, "/nix/store/d".to_string())];
    assert_eq!(find_generation(&gens, 3), Some(1));
    assert_eq!(find_generation(&gens, 1), Some(0));
    assert_eq!(find_generation(&gens, 2), None);
    assert_eq!(generation_not_found_message(2), "Generation 2 not found");
}

#[test]
fn generations_with_one_number_keep_their_order() {
    let gens: Vec<(u32, String)> = vec![
        (4, "d".to_string()),
        (2, "b1".to_string()),
        (1, "a".to_string()),
        (2, "b2".to_string()),
    ];
    let sorted = sort_generations(gens);
    let names: Vec<&str> = sorted.iter().map(|(_, t)| t.as_str()).collect();
    assert_eq!(names, vec!["a", "b1", "b2", "d"]);
}

#[test]
fn version_read_from_last_path_component() {
    assert_eq!(extract_version(&format!("{}/", store("hello-2.12.1"))), "2.12.1");
    assert_eq!(extract_version(&format!("{}/.", store("hello-2.12.1"))), "2.12.1");
    assert_eq!(extract_version("/nix/store/x/.."), "/nix/store/x/..");
    assert_eq!(extract_version("/"), "/");
}
