use code_playground::circuit_breaker::{CircuitBreaker, CircuitState};
use code_playground::examples::{all_examples, find_example, Language};
use code_playground::pipeline::{after_upstream_at, UpstreamOutcome, UpstreamStep};
use code_playground::headers::Headers;
use code_playground::pipeline::{
    extract_ip, matched_origin, prepare_execution, rate_limit_problem, screen_request_at,
    setting_or, split_list, stale_response_format,
};
use code_playground::security::RequestSigner;

#[test]
fn screening_checks_origin_before_signature() {
    let allowed = vec!["https://site.example".to_string()];
    let signer = RequestSigner::new("k".to_string(), 300);
    let sig = signer.sign(500, "{}");
    let mut h = Headers::new();
    h.insert("x-playground-signature", Some(&sig));
    h.insert("x-playground-timestamp", Some("500"));
    let err = screen_request_at(&allowed, &signer, &h, "{}", 500).unwrap_err();
    assert_eq!((err.status, err.detail.as_str()), (403, "Request origin not allowed"));
    h.insert("origin", Some("https://site.example"));
    assert!(screen_request_at(&allowed, &signer, &h, "{}", 500).is_ok());
    let err = screen_request_at(&allowed, &signer, &h, "{}", 10_000).unwrap_err();
    assert_eq!((err.status, err.detail.as_str()), (401, "Invalid signature: Request expired"));
}

#[test]
fn client_address_prefers_forwarding_headers() {
    let mut h = Headers::new();
    assert_eq!(extract_ip(&h, "10.0.0.1"), "10.0.0.1");
    h.insert("x-forwarded-for", Some(" 203.0.113.5 , 10.0.0.2"));
    assert_eq!(extract_ip(&h, "10.0.0.1"), "203.0.113.5");
    h.insert("cf-connecting-ip", Some("198.51.100.7"));
    assert_eq!(extract_ip(&h, "10.0.0.1"), "198.51.100.7");
    h.insert("cf-connecting-ip", None);
    assert_eq!(extract_ip(&h, "10.0.0.1"), "10.0.0.1");
}

#[test]
fn settings_parse_or_fall_back() {
    assert_eq!(split_list("https://a.example, https://b.example ,"), vec![
        "https://a.example".to_string(),
        "https://b.example".to_string(),
        String::new(),
    ]);
    assert_eq!(split_list(""), vec![String::new()]);
    assert_eq!(setting_or("3001", 3001, 65_535), 3001);
    assert_eq!(setting_or("8080", 3001, 65_535), 8080);
    assert_eq!(setting_or("70000", 3001, 65_535), 3001);
    assert_eq!(setting_or("ten", 10, u64::MAX), 10);
    assert_eq!(setting_or("+7", 10, u64::MAX), 7);
    assert_eq!(setting_or("18446744073709551616", 1, u64::MAX), 1);
    assert_eq!(setting_or("18446744073709551615", 1, u64::MAX), u64::MAX);
}

#[test]
fn preparing_an_execution() {
    let all = all_examples();
    let err = prepare_execution(&all, "nope", "fn main() {}").err().unwrap();
    assert_eq!((err.status, err.detail.as_str()), (400, "Unknown example: nope"));
    let err = prepare_execution(&all, "rs_01_crime_scene", "use std::fs;\nfn main() {}").err().unwrap();
    assert_eq!(err.detail, "Code sanitization failed: Code contains blocked import or macro");
    let ex = find_example(&all, "rs_03_unpin").unwrap();
    let plan = prepare_execution(&all, "rs_03_unpin", ex.code).ok().unwrap();
    assert!(plan.is_default);
    assert_eq!(plan.matching_lines, plan.total_lines);
    assert_eq!(plan.example.language, Language::Rust);
    let edited = format!("{}// extra\n", ex.code);
    let plan = prepare_execution(&all, "rs_03_unpin", &edited).ok().unwrap();
    assert!(!plan.is_default);
    assert_eq!(plan.matching_lines + 1, plan.total_lines);
}

#[test]
fn stale_formats_and_cors_origin() {
    assert_eq!(stale_response_format("2021"), Some(Language::Rust));
    assert_eq!(stale_response_format("go"), Some(Language::Go));
    assert_eq!(stale_response_format("es2023"), None);
    let allowed = vec!["https://a.example".to_string()];
    assert_eq!(matched_origin(&allowed, Some("https://a.example")), Some("https://a.example".to_string()));
    assert_eq!(matched_origin(&allowed, Some("https://evil.example")), None);
    assert_eq!(matched_origin(&allowed, None), None);
    let p = rate_limit_problem(59_400);
    assert_eq!((p.status, p.detail.as_str()), (429, "Too many requests. Retry in 60 seconds."));
}

#[test]
fn upstream_answers_drive_the_breaker() {
    let mut cb = CircuitBreaker::new("rust-playground", 2, 60_000);
    match after_upstream_at(&mut cb, "play.rust-lang.org", UpstreamOutcome::Refused("500 Internal Server Error".to_string()), 0) {
        UpstreamStep::Fail(p) => {
            assert_eq!(p.status, 502);
            assert_eq!(p.detail, "play.rust-lang.org: HTTP 500 Internal Server Error");
        }
        _ => panic!("expected a failure"),
    }
    match after_upstream_at(&mut cb, "play.rust-lang.org", UpstreamOutcome::Unreachable("connection refused".to_string()), 0) {
        UpstreamStep::Fail(p) => {
            assert_eq!(p.status, 502);
            assert_eq!(p.detail, "play.rust-lang.org: connection refused");
        }
        _ => panic!("expected a failure"),
    }
    assert_eq!(cb.state(), CircuitState::Open);
    cb.allow_request_at(60_000).unwrap();
    assert!(matches!(after_upstream_at(&mut cb, "play.rust-lang.org", UpstreamOutcome::Answered, 60_000), UpstreamStep::Relay));
    assert_eq!(cb.state(), CircuitState::Closed);
}
