use boa_engine::Source;
use code_playground::js_runner::{console_context, js_result_from, read_collected, sanitize_js, JsResult, READ_OUTPUT};

fn run(code: &str) -> JsResult {
    let mut context = console_context().expect("Failed to inject console");
    let outcome = match context.eval(Source::from_bytes(code)) {
        Err(err) => Err(format!("{}", err)),
        Ok(_) => {
            let read = context
                .eval(Source::from_bytes(READ_OUTPUT))
                .map(|value| value.as_string().map(|s| s.to_std_string_escaped()))
                .map_err(|err| format!("{}", err));
            read_collected(read)
        }
    };
    js_result_from(Some(outcome), 0)
}

#[test]
fn test_basic_execution() {
    let result = run("console.log('hello world');");
    assert!(result.success);
    assert_eq!(result.output.trim(), "hello world");
}

#[test]
fn test_syntax_error() {
    let result = run("let x = ;");
    assert!(!result.success);
    assert!(!result.error.is_empty());
}

#[test]
fn test_multiple_logs() {
    let result = run(
        r#"
            console.log("line 1");
            console.log("line 2");
            console.log(1 + 2);
            "#,
    );
    assert!(result.success);
    assert!(result.output.contains("line 1"));
    assert!(result.output.contains("line 2"));
    assert!(result.output.contains("3"));
}

#[test]
fn test_object_logging() {
    let result = run(r#"console.log({ name: "test", value: 42 });"#);
    assert!(result.success);
    assert!(result.output.contains("test"));
    assert!(result.output.contains("42"));
}

#[test]
fn test_sanitize_blocks_require() {
    assert!(sanitize_js("const fs = require('fs');").is_err());
}

#[test]
fn test_sanitize_allows_clean_code() {
    assert!(sanitize_js("console.log('hello');").is_ok());
}

#[test]
fn console_prefixes_errors_and_warnings() {
    let result = run("console.error('bad', 1); console.warn('careful'); console.log('a', 'b');");
    assert!(result.success);
    assert_eq!(result.output, "[ERROR] bad 1\n[WARN] careful\na b");
}

#[test]
fn js_result_reports_panic_and_time() {
    let r = js_result_from(None, 7);
    assert!(!r.success);
    assert_eq!(r.error, "Execution panicked (possible infinite loop or stack overflow)");
    assert_eq!(r.execution_time_ms, 7);
    let ok = js_result_from(Some(Ok("out".to_string())), 3);
    assert!(ok.success && ok.output == "out" && ok.error.is_empty());
    let err = js_result_from(Some(Err("boom".to_string())), 3);
    assert!(!err.success && err.output.is_empty() && err.error == "boom");
}

#[test]
fn sanitize_js_reports_each_rule() {
    assert_eq!(sanitize_js(""), Err("Empty code"));
    assert_eq!(sanitize_js("fetch('x')"), Err("Code contains blocked API"));
    assert_eq!(sanitize_js(&"x".repeat(10_001)), Err("Code too large (max 10KB)"));
}

#[test]
fn collected_output_reads_strings_and_prefixes_errors() {
    assert_eq!(read_collected(Ok(Some("a\nb".to_string()))), Ok("a\nb".to_string()));
    assert_eq!(read_collected(Ok(None)), Ok(String::new()));
    assert_eq!(read_collected(Err("x".to_string())), Err("Failed to read output: x".to_string()));
}

#[test]
fn console_context_installs_collector() {
    let mut context = console_context().expect("Failed to inject console");
    let v = context.eval(Source::from_bytes("typeof console.log + ',' + __output__.length")).unwrap();
    assert_eq!(v.as_string().unwrap().to_std_string_escaped(), "function,0");
}
