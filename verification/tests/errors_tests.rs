use code_playground::errors::trace_id_from;
use code_playground::errors::ProblemDetail;

#[test]
fn factories_fill_type_title_status_and_detail() {
    let p = ProblemDetail::rate_limited(61);
    assert_eq!(p.problem_type, "https://api.yourdomain.com/errors/rate-limited");
    assert_eq!(p.title, "Rate Limited");
    assert_eq!(p.status, 429);
    assert_eq!(p.detail, "Too many requests. Retry in 61 seconds.");
    assert!(p.example_id.is_none());

    let p = ProblemDetail::execution_timeout("JavaScript", 5000);
    assert_eq!(p.status, 408);
    assert_eq!(p.detail, "The JavaScript execution exceeded the 5000ms limit.");

    let p = ProblemDetail::upstream_unavailable("go.dev");
    assert_eq!(p.status, 503);
    assert_eq!(
        p.detail,
        "go.dev is temporarily unavailable. The circuit breaker is open. Cached results may be served with a staleness warning."
    );

    let p = ProblemDetail::upstream_error("play.rust-lang.org", "HTTP 500".to_string());
    assert_eq!((p.status, p.detail.as_str()), (502, "play.rust-lang.org: HTTP 500"));

    let p = ProblemDetail::code_blocked("Empty code");
    assert_eq!((p.status, p.title.as_str()), (400, "Code Rejected"));
    assert_eq!(p.detail, "Code sanitization failed: Empty code");

    assert_eq!(ProblemDetail::unauthorized("x".to_string()).status, 401);
    assert_eq!(ProblemDetail::forbidden("x".to_string()).status, 403);
    assert_eq!(ProblemDetail::bad_request("x".to_string()).problem_type, "https://api.yourdomain.com/errors/bad-request");
    assert_eq!(ProblemDetail::internal("x".to_string()).title, "Internal Server Error");
}

#[test]
fn similarity_rejection_names_example() {
    let p = ProblemDetail::similarity_rejected(12, "rs_01_crime_scene");
    assert_eq!(p.status, 400);
    assert_eq!(p.example_id.as_deref(), Some("rs_01_crime_scene"));
    assert_eq!(
        p.detail,
        "Submitted code is only 12% similar to example 'rs_01_crime_scene'. This playground is for exploring the provided examples, not running arbitrary code."
    );
}

#[test]
fn no_trace_outside_a_recorded_span() {
    assert!(ProblemDetail::forbidden("x".to_string()).trace_id.is_none());
    let p = ProblemDetail::with_trace(500, "t", "T", "d".to_string(), Some("abc".to_string()));
    assert_eq!(p.trace_id.as_deref(), Some("abc"));
    let p = p.with_example("ex");
    assert_eq!(p.example_id.as_deref(), Some("ex"));
    assert_eq!(p.problem_type, "https://api.yourdomain.com/errors/t");
}

#[test]
fn trace_id_absent_outside_a_recorded_span() {
    assert_eq!(code_playground::errors::current_trace_id(), None);
    let p = code_playground::errors::ProblemDetail::internal("x".to_string());
    assert_eq!(p.trace_id, None);
}

#[test]
fn trace_id_from_bytes() {
    let trace: Vec<u8> = (0u8..16).collect();
    let span = vec![0, 0, 0, 0, 0, 0, 0, 1];
    assert_eq!(trace_id_from(&trace, &span), Some("000102030405060708090a0b0c0d0e0f".to_string()));
    assert_eq!(trace_id_from(&vec![0; 16], &span), None);
    assert_eq!(trace_id_from(&trace, &vec![0; 8]), None);
}
