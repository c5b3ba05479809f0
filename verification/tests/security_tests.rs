use code_playground::headers::Headers;
use code_playground::security::{
    code_similarity_counts, constant_time_eq, cors_headers, sanitize_code,
    validate_origin, RequestSigner,
};
use std::time::{SystemTime, UNIX_EPOCH};

fn signed_headers(sig: &str, ts: &str) -> Headers {
    let mut headers = Headers::new();
    headers.insert("x-playground-signature", Some(sig));
    headers.insert("x-playground-timestamp", Some(ts));
    headers
}

#[test]
fn test_sign_and_validate() {
    let signer = RequestSigner::new("test-secret".to_string(), 60);
    let now = SystemTime::now().duration_since(UNIX_EPOCH).unwrap().as_secs();
    let body = r#"{"example_id":"01","code":"fn main(){}"}"#;
    let sig = signer.sign(now, body);
    let headers = signed_headers(&sig, &now.to_string());
    assert!(signer.validate(&headers, body).is_ok());
}

#[test]
fn test_expired_request() {
    let signer = RequestSigner::new("test-secret".to_string(), 60);
    let old_timestamp = 1000u64;
    let body = "test";
    let sig = signer.sign(old_timestamp, body);
    let headers = signed_headers(&sig, "1000");
    assert_eq!(signer.validate(&headers, body), Err("Request expired"));
}

#[test]
fn test_sanitize_blocks_network() {
    assert!(sanitize_code("use std::net::TcpStream;\nfn main() {}").is_err());
    assert!(sanitize_code("fn main() { println!(\"hello\"); }").is_ok());
}

#[test]
fn test_similarity() {
    let a = "line1\nline2\nline3";
    let b = "line1\nchanged\nline3";
    let (matching, total) = code_similarity_counts(a, b);
    let sim = matching as f64 / total as f64;
    assert!((sim - 0.666).abs() < 0.01);
}

#[test]
fn sign_digests_secret_timestamp_and_body() {
    let signer = RequestSigner::new("test-secret".to_string(), 60);
    assert_eq!(
        signer.sign(1000, "test"),
        "2db796bac5153a49d8f1b6e7f328afb071e6e694f26b27d69c898be92b29739e"
    );
}

#[test]
fn validate_accepts_within_age_and_refuses_beyond() {
    let signer = RequestSigner::new("s".to_string(), 60);
    let sig = signer.sign(1000, "body");
    let headers = signed_headers(&sig, "1000");
    assert_eq!(signer.validate_at(&headers, "body", 1060), Ok(()));
    assert_eq!(signer.validate_at(&headers, "body", 940), Ok(()));
    assert_eq!(signer.validate_at(&headers, "body", 1061), Err("Request expired"));
    assert_eq!(signer.validate_at(&headers, "body", 939), Err("Request expired"));
}

#[test]
fn validate_reports_each_refusal() {
    let signer = RequestSigner::new("s".to_string(), 60);
    let sig = signer.sign(1000, "body");
    let mut only_sig = Headers::new();
    only_sig.insert("x-playground-signature", Some(&sig));
    assert_eq!(signer.validate_at(&Headers::new(), "body", 1000), Err("Missing signature header"));
    assert_eq!(signer.validate_at(&only_sig, "body", 1000), Err("Missing timestamp header"));
    let bad_ts = signed_headers(&sig, "10x0");
    assert_eq!(signer.validate_at(&bad_ts, "body", 1000), Err("Invalid timestamp"));
    let plus_ts = signed_headers(&sig, "+1000");
    assert_eq!(signer.validate_at(&plus_ts, "body", 1000), Ok(()));
    let good = signed_headers(&sig, "1000");
    assert_eq!(signer.validate_at(&good, "tampered", 1000), Err("Invalid signature"));
    let mut not_text = signed_headers(&sig, "1000");
    not_text.insert("x-playground-signature", None);
    assert_eq!(signer.validate_at(&not_text, "body", 1000), Err("Missing signature header"));
}

#[test]
fn constant_time_eq_compares_bytes() {
    assert!(constant_time_eq(b"abc", b"abc"));
    assert!(!constant_time_eq(b"abc", b"abd"));
    assert!(!constant_time_eq(b"abc", b"ab"));
    assert!(constant_time_eq(b"", b""));
}

#[test]
fn origin_checks_origin_then_referer() {
    let allowed = vec!["https://a.example".to_string(), "https://b.example".to_string()];
    let mut h = Headers::new();
    h.insert("origin", Some("https://b.example"));
    assert!(validate_origin(&h, &allowed));
    let mut h = Headers::new();
    h.insert("origin", Some("https://b.example/page"));
    h.insert("referer", Some("https://a.example/page"));
    assert!(!validate_origin(&h, &allowed));
    let mut h = Headers::new();
    h.insert("referer", Some("https://a.example/page"));
    assert!(validate_origin(&h, &allowed));
    let mut h = Headers::new();
    h.insert("referer", Some("https://c.example/"));
    assert!(!validate_origin(&h, &allowed));
    assert!(!validate_origin(&Headers::new(), &allowed));
}

#[test]
fn sanitize_code_reports_each_rule() {
    assert_eq!(sanitize_code(""), Err("Empty code"));
    let big = format!("fn main() {{}}{}", "x".repeat(10_000));
    assert_eq!(sanitize_code(&big), Err("Code too large (max 10KB)"));
    assert_eq!(sanitize_code("fn start() {}"), Err("Code must contain fn main()"));
    assert_eq!(
        sanitize_code("fn main() { let b = include_bytes!(\"x\"); }"),
        Err("Code contains blocked import or macro")
    );
    assert_eq!(sanitize_code("fn main() { std::process::exit(0); }"), Err("Code contains blocked import or macro"));
}

#[test]
fn similarity_of_identical_and_trimmed_code() {
    assert_eq!(code_similarity_counts("a\nb\nc", "a\nb\nc"), (3, 3));
    assert_eq!(code_similarity_counts("  a\r\nb\t\n", "a\nb"), (2, 2));
    assert_eq!(code_similarity_counts("", ""), (0, 0));
    assert_eq!(code_similarity_counts("a\nb", "a"), (1, 2));
}

#[test]
fn cors_headers_name_first_origin() {
    let allowed = vec!["https://a.example".to_string(), "https://b.example".to_string()];
    let h = cors_headers(&allowed);
    assert_eq!(h.len(), 4);
    assert_eq!(h[0], ("Access-Control-Allow-Origin".to_string(), "https://a.example".to_string()));
    assert_eq!(h[3], ("Access-Control-Max-Age".to_string(), "86400".to_string()));
    let none = cors_headers(&[]);
    assert_eq!(none[0].1, "");
}

#[test]
fn similarity_counts_are_symmetric_and_signature_is_64_hex() {
    let a = "line1\nline2\nline3";
    let b = "line1\nchanged";
    assert_eq!(code_similarity_counts(a, b), code_similarity_counts(b, a));
    assert_eq!(code_similarity_counts(a, b), (1, 3));
    let sig = RequestSigner::new("k".to_string(), 60).sign(1, "body");
    assert_eq!(sig.len(), 64);
    assert!(sig.chars().all(|c| c.is_ascii_hexdigit() && !c.is_ascii_uppercase()));
}
