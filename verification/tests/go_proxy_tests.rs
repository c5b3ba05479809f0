use code_playground::go_proxy::{build_go_request_body, parse_go_response, sanitize_go, GoEvent, GoPlaygroundResponse};

#[test]
fn test_sanitize_go_valid() {
    let code = r#"
package main

import "fmt"

func main() {
    fmt.Println("hello")
}
"#;
    assert!(sanitize_go(code).is_ok());
}

#[test]
fn test_sanitize_go_blocks_net() {
    let code = r#"
package main

import "net/http"

func main() {
    http.Get("http://evil.com")
}
"#;
    assert!(sanitize_go(code).is_err());
}

#[test]
fn test_parse_go_response_success() {
    let resp = GoPlaygroundResponse {
        errors: String::new(),
        events: Some(vec![GoEvent {
            message: "hello\n".to_string(),
            kind: "stdout".to_string(),
            delay: 0,
        }]),
    };
    let (stdout, stderr, success) = parse_go_response(&resp);
    assert!(success);
    assert_eq!(stdout, "hello\n");
    assert!(stderr.is_empty());
}

#[test]
fn test_parse_go_response_error() {
    let resp = GoPlaygroundResponse {
        errors: "prog.go:3:1: expected declaration".to_string(),
        events: None,
    };
    let (stdout, stderr, success) = parse_go_response(&resp);
    assert!(!success);
    assert!(stdout.is_empty());
    assert!(stderr.contains("expected declaration"));
}

#[test]
fn parse_go_response_splits_streams_in_order() {
    let ev = |m: &str, k: &str| GoEvent { message: m.to_string(), kind: k.to_string(), delay: 5 };
    let resp = GoPlaygroundResponse {
        errors: String::new(),
        events: Some(vec![ev("a", "stdout"), ev("x", "stderr"), ev("b", "other"), ev("y", "stderr")]),
    };
    assert_eq!(parse_go_response(&resp), ("ab".to_string(), "xy".to_string(), true));
    let empty = GoPlaygroundResponse { errors: String::new(), events: None };
    assert_eq!(parse_go_response(&empty), (String::new(), String::new(), true));
}

#[test]
fn go_request_body_percent_encodes_code() {
    let body = build_go_request_body("package main\nfunc main() { fmt.Println(\"h\u{e9}llo~\") }");
    assert_eq!(
        body,
        "version=2&body=package%20main%0Afunc%20main%28%29%20%7B%20fmt.Println%28%22h%C3%A9llo~%22%29%20%7D&withVet=true"
    );
}

#[test]
fn sanitize_go_reports_each_rule() {
    assert_eq!(sanitize_go(""), Err("Empty code"));
    assert_eq!(sanitize_go("func main() {}"), Err("Code must contain 'package main'"));
    assert_eq!(sanitize_go("package main\nfunc run() {}"), Err("Code must contain 'func main()'"));
    assert_eq!(
        sanitize_go("package main\nimport \"os/exec\"\nfunc main() {}"),
        Err("Code contains blocked import")
    );
    let big = format!("package main\nfunc main() {{}}\n//{}", "x".repeat(10_000));
    assert_eq!(sanitize_go(&big), Err("Code too large (max 10KB)"));
}
