//! JavaScript runs in process, in a fresh Boa engine context per request.
//! The context offers only computation: a `console` object that collects
//! the logged lines is installed before the submitted code runs, and the
//! collected lines are the output.
use crate::security::MAX_CODE_BYTES;
use crate::text::{chars_of, mentions_any, occurs_any, occurs_in};
use boa_engine::{Context, Source};
use vstd::prelude::*;
use vstd::utf8::encode_utf8;

verus! {

#[verifier::external_type_specification]
#[verifier::external_body]
pub struct ExContext(Context);

/// The result of running JavaScript code.
pub struct JsResult {
    pub success: bool,
    pub output: String,
    pub error: String,
    pub execution_time_ms: u64,
}

/// The error text that evaluating `script` as the first script of a fresh
/// engine context gives, or `None` when the engine accepts it.
pub uninterp spec fn fresh_eval_error(script: Seq<char>) -> Option<Seq<char>>;

/// `Context::default` followed by `Context::eval` of `script`: the fresh
/// context after the script ran, or the error's display text. The only
/// script admitted is `CONSOLE_SETUP`, which declares variables and
/// functions and calls nothing: on it the engine returns, without
/// panicking, the same outcome every time. What submitted code does in a
/// context is not stated anywhere: it need not return, and it runs outside
/// the library.
#[verifier::external_body]
fn fresh_context_with(script: &str) -> (r: Result<Context, String>)
    requires
        script@ == CONSOLE_SETUP@,
    ensures
        match r {
            Ok(_) => fresh_eval_error(script@) is None,
            Err(e) => fresh_eval_error(script@) == Some(e@),
        },
{
    let mut context = Context::default();
    match context.eval(Source::from_bytes(script)) {
        Ok(_) => Ok(context),
        Err(err) => Err(format!("{}", err)),
    }
}

/// The script that installs the collecting `console` object: `log`,
/// `error` and `warn` append their arguments, joined by spaces, to the
/// global `__output__` array, `error` and `warn` with a `[ERROR] ` or
/// `[WARN] ` prefix; `log` renders objects as indented JSON.
pub const CONSOLE_SETUP: &'static str = r#"
        var __output__ = [];
        var console = {
            log: function() {
                var parts = [];
                for (var i = 0; i < arguments.length; i++) {
                    if (typeof arguments[i] === 'object' && arguments[i] !== null) {
                        try {
                            parts.push(JSON.stringify(arguments[i], null, 2));
                        } catch(e) {
                            parts.push(String(arguments[i]));
                        }
                    } else {
                        parts.push(String(arguments[i]));
                    }
                }
                __output__.push(parts.join(' '));
            },
            error: function() {
                var parts = [];
                for (var i = 0; i < arguments.length; i++) {
                    parts.push(String(arguments[i]));
                }
                __output__.push('[ERROR] ' + parts.join(' '));
            },
            warn: function() {
                var parts = [];
                for (var i = 0; i < arguments.length; i++) {
                    parts.push(String(arguments[i]));
                }
                __output__.push('[WARN] ' + parts.join(' '));
            }
        };
    "#;

/// The script whose value is the collected output, one logged line per line.
pub const READ_OUTPUT: &'static str = "__output__.join('\\n')";

/// A fresh context with the collecting `console` installed by running
/// `CONSOLE_SETUP` in it, or the engine's error when that script failed.
/// The context itself is opaque: nothing is stated of it beyond that the
/// setup script ran in it.
pub fn console_context() -> (r: Result<Context, String>)
    ensures
        match r {
            Ok(_) => fresh_eval_error(CONSOLE_SETUP@) is None,
            Err(e) => fresh_eval_error(CONSOLE_SETUP@) == Some(e@),
        },
{
    fresh_context_with(CONSOLE_SETUP)
}

/// The outcome of a run: the error of the submitted code when it failed;
/// otherwise what reading the collected output gave: the output (empty when
/// it was not a string), or the error prefixed by `Failed to read output: `.
pub open spec fn run_outcome(
    run: Result<Option<String>, String>,
    read: Result<Option<String>, String>,
) -> Result<Seq<char>, Seq<char>> {
    match run {
        Err(e) => Err(e@),
        Ok(_) => match read {
            Ok(Some(s)) => Ok(s@),
            Ok(None) => Ok(Seq::empty()),
            Err(e) => Err("Failed to read output: "@ + e@),
        },
    }
}

/// The view of a run's result.
pub open spec fn outcome_view(r: Result<String, String>) -> Result<Seq<char>, Seq<char>> {
    match r {
        Ok(s) => Ok(s@),
        Err(e) => Err(e@),
    }
}

/// The collected output after the submitted code ran without error, given
/// what evaluating `READ_OUTPUT` gave: the output (empty when it was not a
/// string), or the error prefixed by `Failed to read output: `.
pub fn read_collected(read: Result<Option<String>, String>) -> (r: Result<String, String>)
    ensures
        outcome_view(r) == run_outcome(Ok(None), read),
{
    match read {
        Ok(Some(s)) => Ok(s),
        Ok(None) => Ok(String::new()),
        Err(e) => {
            let mut msg = String::from_str("Failed to read output: ");
            msg.append(e.as_str());
            Err(msg)
        },
    }
}

/// The result reported for a run that took `execution_time_ms`: its output
/// on success; its error on failure; a fixed message when it panicked
/// (`None`).
pub fn js_result_from(outcome: Option<Result<String, String>>, execution_time_ms: u64) -> (r:
    JsResult)
    ensures
        r.execution_time_ms == execution_time_ms,
        match outcome {
            Some(Ok(output)) => r.success && r.output@ == output@ && r.error@ == Seq::<
                char,
            >::empty(),
            Some(Err(error)) => !r.success && r.output@ == Seq::<char>::empty() && r.error@
                == error@,
            None => !r.success && r.output@ == Seq::<char>::empty() && r.error@
                == "Execution panicked (possible infinite loop or stack overflow)"@,
        },
{
    match outcome {
        Some(Ok(output)) => JsResult {
            success: true,
            output,
            error: String::new(),
            execution_time_ms,
        },
        Some(Err(error)) => JsResult {
            success: false,
            output: String::new(),
            error,
            execution_time_ms,
        },
        None => JsResult {
            success: false,
            output: String::new(),
            error: String::from_str("Execution panicked (possible infinite loop or stack overflow)"),
            execution_time_ms,
        },
    }
}

/// The APIs that submitted JavaScript may not call.
pub open spec fn js_blocked_patterns() -> Seq<&'static str> {
    seq![
        "require(",
        "import ",
        "eval(",
        "Function(",
        "fetch(",
        "XMLHttpRequest",
        "WebSocket",
        "Worker(",
        "SharedArrayBuffer",
        "Atomics.",
    ]
}

/// The outcome of screening submitted JavaScript: at most 10 000 bytes, not
/// empty, and calling no blocked API; the first rule broken, in that order,
/// names the refusal.
pub open spec fn js_code_verdict(code: Seq<char>) -> Result<(), &'static str> {
    if encode_utf8(code).len() > MAX_CODE_BYTES {
        Err("Code too large (max 10KB)")
    } else if code.len() == 0 {
        Err("Empty code")
    } else if mentions_any(code, js_blocked_patterns()) {
        Err("Code contains blocked API")
    } else {
        Ok(())
    }
}

/// JavaScript that passes the size and emptiness rules is refused as
/// calling a blocked API exactly when it holds one of `require(`,
/// `import `, `eval(`, `Function(`, `fetch(`, `XMLHttpRequest`,
/// `WebSocket`, `Worker(`, `SharedArrayBuffer` or `Atomics.`; otherwise it
/// passes.
pub proof fn lemma_js_blocked_apis(code: Seq<char>)
    requires
        encode_utf8(code).len() <= MAX_CODE_BYTES,
        code.len() > 0,
    ensures
        js_code_verdict(code) == (if occurs_in(code, "require("@) || occurs_in(code, "import "@)
            || occurs_in(code, "eval("@) || occurs_in(code, "Function("@) || occurs_in(
            code,
            "fetch("@,
        ) || occurs_in(code, "XMLHttpRequest"@) || occurs_in(code, "WebSocket"@) || occurs_in(
            code,
            "Worker("@,
        ) || occurs_in(code, "SharedArrayBuffer"@) || occurs_in(code, "Atomics."@) {
            Err::<(), &'static str>("Code contains blocked API")
        } else {
            Ok::<(), &'static str>(())
        }),
{
    let p = js_blocked_patterns();
    assert(p.len() == 10);
    assert(p[0]@ == "require("@);
    assert(p[1]@ == "import "@);
    assert(p[2]@ == "eval("@);
    assert(p[3]@ == "Function("@);
    assert(p[4]@ == "fetch("@);
    assert(p[5]@ == "XMLHttpRequest"@);
    assert(p[6]@ == "WebSocket"@);
    assert(p[7]@ == "Worker("@);
    assert(p[8]@ == "SharedArrayBuffer"@);
    assert(p[9]@ == "Atomics."@);
    if mentions_any(code, p) {
        let i = choose|i: int| 0 <= i < p.len() && occurs_in(code, #[trigger] p[i]@);
        assert(0 <= i < 10);
    }
}

/// Screens submitted JavaScript before it runs.
pub fn sanitize_js(code: &str) -> (r: Result<(), &'static str>)
    ensures
        r == js_code_verdict(code@),
{
    if code.as_bytes().len() > MAX_CODE_BYTES {
        return Err("Code too large (max 10KB)");
    }
    if code.is_empty() {
        return Err("Empty code");
    }
    let blocked: Vec<&str> = vec![
        "require(",
        "import ",
        "eval(",
        "Function(",
        "fetch(",
        "XMLHttpRequest",
        "WebSocket",
        "Worker(",
        "SharedArrayBuffer",
        "Atomics.",
    ];
    assert(blocked@ =~= js_blocked_patterns());
    let chars = chars_of(code);
    if occurs_any(&chars, &blocked) {
        return Err("Code contains blocked API");
    }
    Ok(())
}

} // verus!
