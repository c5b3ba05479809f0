use code_playground::digest::sha256_hex;
use code_playground::headers::Headers;
use code_playground::text::{contains, decimal_string, lines, parse_bounded, same_text, starts_with, trim_chars};

#[test]
fn substring_prefix_and_equality() {
    assert!(contains("fn main() {}", "main()"));
    assert!(contains("abc", ""));
    assert!(!contains("ab", "abc"));
    assert!(starts_with("https://a.example/x", "https://a.example"));
    assert!(!starts_with("http", "https"));
    assert!(same_text("h\u{e9}", "h\u{e9}"));
    assert!(!same_text("a", "b"));
}

#[test]
fn trimming_and_lines() {
    let t = trim_chars(&" \t\u{3000}x y\u{a0}\n".chars().collect());
    assert_eq!(t, vec!['x', ' ', 'y']);
    let l: Vec<String> = lines("a\r\nb\n\nc\r").into_iter().map(|v| v.into_iter().collect()).collect();
    assert_eq!(l, vec!["a", "b", "", "c\r"]);
    assert!(lines("").is_empty());
    assert_eq!(lines("x\n").len(), 1);
}

#[test]
fn decimal_numbers_round_trip() {
    assert_eq!(decimal_string(0), "0");
    assert_eq!(decimal_string(1_700_000_000), "1700000000");
    assert_eq!(decimal_string(u64::MAX), u64::MAX.to_string());
    assert_eq!(parse_bounded("1700000000", u64::MAX), Some(1_700_000_000));
    assert_eq!(parse_bounded("", u64::MAX), None);
    assert_eq!(parse_bounded("+", u64::MAX), None);
    assert_eq!(parse_bounded("-1", u64::MAX), None);
    assert_eq!(parse_bounded("007", 7), Some(7));
    assert_eq!(parse_bounded("8", 7), None);
}

#[test]
fn sha256_hex_matches_known_digest() {
    assert_eq!(sha256_hex(b"abc"), "ba7816bf8f01cfea414140de5dae2223b00361a396177a9cb410ff61f20015ad");
}

#[test]
fn header_insert_replaces_earlier_fields() {
    let mut h = Headers::new();
    h.insert("origin", Some("a"));
    h.insert("referer", Some("r"));
    h.insert("origin", Some("b"));
    assert_eq!(h.get_text("origin"), Some("b".to_string()));
    assert_eq!(h.fields.len(), 2);
    h.insert("origin", None);
    assert_eq!(h.get("origin"), Some(None));
    assert_eq!(h.get_text("origin"), None);
    assert_eq!(h.get("missing"), None);
}
