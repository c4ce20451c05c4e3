use std::path::Path;

use record::text::{chars_of, path_join, push_decimal, split_lines, split_once};

#[test]
fn decimal_numerals() {
    for n in [0u64, 7, 10, 1234, u64::MAX] {
        let mut s = String::from("n=");
        push_decimal(&mut s, n);
        assert_eq!(s, format!("n={}", n));
    }
}

#[test]
fn split_once_at_first_separator() {
    assert_eq!(
        split_once("Discord:abc:def", ':'),
        Some(("Discord".to_string(), "abc:def".to_string()))
    );
    assert_eq!(split_once(":x", ':'), Some(("".to_string(), "x".to_string())));
    assert_eq!(split_once("x:", ':'), Some(("x".to_string(), "".to_string())));
    assert_eq!(split_once("no separator", ':'), None);
    assert_eq!(split_once("", ':'), None);
}

#[test]
fn split_once_matches_std() {
    for s in ["a:b", "äö:ü:", "::", "abc", "é:", ""] {
        let ours = split_once(s, ':');
        let std = s.split_once(':').map(|(a, b)| (a.to_string(), b.to_string()));
        assert_eq!(ours, std);
    }
}

#[test]
fn lines_like_std() {
    for s in ["a\r\nb\n\nc", "", "a\n", "\n", "a\rb\n", "x\r", "one", "\r\n\r\n", "é\nü\r\n"] {
        let ours = split_lines(s);
        let std: Vec<String> = s.lines().map(|l| l.to_string()).collect();
        assert_eq!(ours, std, "input {:?}", s);
    }
    assert_eq!(split_lines("a\r\nb\n\nc"), vec!["a", "b", "", "c"]);
}

#[test]
fn path_join_like_std() {
    for (base, comp) in [
        ("a", "b"),
        ("a/", "b"),
        ("", "b"),
        ("a", "/b"),
        ("a", ""),
        ("", ""),
        ("public/Discord/Users/1", "abc.png"),
    ] {
        let ours = path_join(base, comp);
        let std = Path::new(base).join(comp);
        assert_eq!(ours, std.to_str().unwrap(), "{:?} + {:?}", base, comp);
    }
    assert_eq!(path_join("a", "b"), "a/b");
    assert_eq!(path_join("a", ""), "a/");
    assert_eq!(path_join("a", "/b"), "/b");
}

#[test]
fn chars_in_order() {
    assert_eq!(chars_of("héllo"), vec!['h', 'é', 'l', 'l', 'o']);
    assert!(chars_of("").is_empty());
}
