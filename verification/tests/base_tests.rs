use trix::assoc::{find_key, get_text, put, put_text};
use trix::command::NixCommand;
use trix::json::Json;
use trix::numtext::{i64_text, parse_u64, u64_text};
use trix::order::{sorted_insert, sorted_set_of, text_lt};
use trix::paint::{paint, Paint};
use trix::text::{
    cat, contains_str, ends_with, find_str, join_strings, lines_of, replace_str, rfind_str, split_str,
    starts_with, substring, text_eq, utf8_width,
};

fn strings(v: &[&str]) -> Vec<String> {
    v.iter().map(|x| x.to_string()).collect()
}

#[test]
fn decimal_text_reads_back() {
    for n in [0u64, 7, 10, 12345, u64::MAX] {
        let t = u64_text(n);
        assert_eq!(t, n.to_string());
        assert_eq!(parse_u64(&t), Some(n));
    }
    assert_eq!(i64_text(-42), "-42");
    assert_eq!(i64_text(i64::MIN), i64::MIN.to_string());
}

#[test]
fn parsing_numbers() {
    assert_eq!(parse_u64("+5"), Some(5));
    assert_eq!(parse_u64("18446744073709551616"), None);
    assert_eq!(parse_u64("1a"), None);
    assert_eq!(parse_u64(""), None);
    assert_eq!(parse_u64("+"), None);
}

#[test]
fn texts() {
    assert_eq!(cat("ab", "cd"), "abcd");
    assert!(text_eq("x", "x") && !text_eq("x", "y"));
    assert_eq!(find_str("a-b-c", "-"), Some(1));
    assert_eq!(rfind_str("a-b-c", "-"), Some(3));
    assert_eq!(find_str("abc", "z"), None);
    assert!(contains_str("hello", "ell"));
    assert!(starts_with("hello", "he") && ends_with("hello", "lo"));
    assert_eq!(substring("héllo", 1, 3), "él");
    assert_eq!(split_str("a.b..c", "."), strings(&["a", "b", "", "c"]));
    assert_eq!(split_str("", "."), strings(&[""]));
    assert_eq!(replace_str("a'b'c", "'", "\\'"), "a\\'b\\'c");
    assert_eq!(join_strings(&strings(&["a", "b", "c"]), ", "), "a, b, c");
    assert_eq!(join_strings(&vec![], ", "), "");
    assert_eq!(lines_of("a\r\nb\n\nc"), strings(&["a", "b", "", "c"]));
    assert_eq!(lines_of("a\n"), strings(&["a"]));
    assert_eq!(utf8_width('a'), 1);
    assert_eq!(utf8_width('é'), 2);
    assert_eq!(utf8_width('→'), 3);
    assert_eq!(utf8_width('😀'), 4);
}

#[test]
fn text_order() {
    assert!(text_lt("abc", "abd"));
    assert!(text_lt("ab", "abc"));
    assert!(!text_lt("b", "a"));
    assert!(!text_lt("a", "a"));
    let mut v = strings(&["a", "c"]);
    sorted_insert(&mut v, "b".to_string());
    sorted_insert(&mut v, "c".to_string());
    assert_eq!(v, strings(&["a", "b", "c"]));
    assert_eq!(sorted_set_of(&strings(&["z", "a", "m", "a"])), strings(&["a", "m", "z"]));
}

#[test]
fn maps_of_texts() {
    let mut m: Vec<(String, String)> = vec![];
    put_text(&mut m, "a".to_string(), "1".to_string());
    put_text(&mut m, "b".to_string(), "2".to_string());
    put_text(&mut m, "a".to_string(), "3".to_string());
    assert_eq!(m, vec![("a".to_string(), "3".to_string()), ("b".to_string(), "2".to_string())]);
    assert_eq!(get_text(&m, "a"), Some(&"3".to_string()));
    assert_eq!(get_text(&m, "z"), None);
    assert_eq!(find_key(&m, "b"), Some(1));
    let mut n: Vec<(String, u32)> = vec![];
    put(&mut n, "x".to_string(), 1);
    put(&mut n, "x".to_string(), 2);
    assert_eq!(n, vec![("x".to_string(), 2)]);
}

#[test]
fn json_assignment_reads_back() {
    let mut j = Json::Null;
    j.assign(&strings(&["nodes", "root", "inputs", "x"]), Json::Str("y".to_string()));
    let v = j.get("nodes").and_then(|n| n.get("root")).and_then(|r| r.get("inputs")).and_then(|i| i.get("x"));
    assert_eq!(v.and_then(|x| x.as_str()), Some(&"y".to_string()));
    j.assign(&strings(&["nodes", "other"]), Json::UInt(3));
    assert!(j.get("nodes").and_then(|n| n.get("root")).is_some());
    assert_eq!(j.get("nodes").and_then(|n| n.get("other")).and_then(|x| x.as_u64()), Some(3));
}

#[test]
fn json_reads() {
    let j = Json::Object(vec![
        ("s".to_string(), Json::Str("t".to_string())),
        ("n".to_string(), Json::NegInt(-3)),
        ("u".to_string(), Json::UInt(u64::MAX)),
        ("z".to_string(), Json::Null),
    ]);
    assert_eq!(j.get_str("s"), Some(&"t".to_string()));
    assert_eq!(j.get_str("n"), None);
    assert_eq!(j.get_str_or("missing", "d"), "d");
    assert_eq!(j.get("n").and_then(|x| x.as_i64()), Some(-3));
    assert_eq!(j.get("u").and_then(|x| x.as_i64()), None);
    assert_eq!(j.get("u").and_then(|x| x.as_u64()), Some(u64::MAX));
    assert!(j.get("z").map(|x| x.is_null()).unwrap_or(false));
    assert!(j.as_object().is_some() && j.as_array().is_none());
    let c = j.deep_clone();
    assert_eq!(c.get_str("s"), Some(&"t".to_string()));
}

#[test]
fn commands() {
    let mut c = NixCommand::new("nix");
    c.arg("build");
    c.args(&strings(&["a", "b"]));
    assert_eq!(c.program, "nix");
    assert_eq!(c.args, strings(&["build", "a", "b"]));
}

#[test]
fn paints() {
    assert_eq!(paint(false, Paint::Red, "x"), "x");
    assert_eq!(paint(true, Paint::Bold, "x"), "\x1b[1mx\x1b[0m");
    assert_eq!(paint(true, Paint::Dimmed, "x"), "\x1b[2mx\x1b[0m");
    assert_eq!(paint(true, Paint::Green, "x"), "\x1b[32mx\x1b[39m");
    assert_eq!(paint(true, Paint::Red, "x"), "\x1b[31mx\x1b[39m");
    assert_eq!(paint(true, Paint::Yellow, "x"), "\x1b[33mx\x1b[39m");
    assert_eq!(paint(true, Paint::Cyan, "x"), "\x1b[36mx\x1b[39m");
}
