//! Problem details (RFC 7807): every error answer of the service names its
//! kind by a URI, has a short title, the HTTP status, an explanation, and
//! where available the trace and the example it concerns.
use crate::text::{decimal, decimal_string};
use crate::digest::hex_lower;
use opentelemetry::trace::{SpanContext, TraceContextExt, TraceId};
use tracing_opentelemetry::OpenTelemetrySpanExt;
use vstd::prelude::*;

verus! {

#[verifier::external_type_specification]
#[verifier::external_body]
pub struct ExSpanContext(SpanContext);

/// An RFC 7807 problem detail.
pub struct ProblemDetail {
    /// A URI naming the kind of problem.
    pub problem_type: String,
    /// A short summary.
    pub title: String,
    /// The HTTP status code.
    pub status: u16,
    /// What went wrong this time.
    pub detail: String,
    /// The trace of the request, when one is being recorded.
    pub trace_id: Option<String>,
    /// The example concerned, when there is one.
    pub example_id: Option<String>,
}

/// The span context of the current tracing span (`Span::current` and its
/// OpenTelemetry context). It depends on the request being served: nothing
/// is stated of it.
#[verifier::external_body]
fn current_span_context() -> SpanContext {
    tracing::Span::current().context().span().span_context().clone()
}

/// `SpanContext::trace_id` and `TraceId::to_bytes`: the 16 bytes of the
/// context's trace id, most significant first.
#[verifier::external_body]
fn span_trace_bytes(ctx: &SpanContext) -> (r: Vec<u8>)
    ensures
        r@.len() == 16,
{
    ctx.trace_id().to_bytes().to_vec()
}

/// `SpanContext::span_id` and `SpanId::to_bytes`: the 8 bytes of the
/// context's span id, most significant first.
#[verifier::external_body]
fn span_id_bytes(ctx: &SpanContext) -> (r: Vec<u8>)
    ensures
        r@.len() == 8,
{
    ctx.span_id().to_bytes().to_vec()
}

/// The display text of `TraceId::from_bytes(bytes)`: the id as a `u128`
/// written with `{:032x}`, that is two lowercase hexadecimal digits per
/// byte, most significant byte first.
#[verifier::external_body]
fn trace_id_text(bytes: &[u8]) -> (r: String)
    requires
        bytes@.len() == 16,
    ensures
        r@ == hex_lower(bytes@),
{
    let mut id = [0u8; 16];
    id.copy_from_slice(bytes);
    format!("{}", TraceId::from_bytes(id))
}

/// Every byte of `b` is zero: the id that marks a span context as invalid.
pub open spec fn all_zero(b: Seq<u8>) -> bool {
    forall|i: int| 0 <= i < b.len() ==> b[i] == 0
}

/// What a span context with trace id bytes `trace` and span id bytes `span`
/// gives as its trace id: nothing when either id is the invalid all-zero id
/// (`SpanContext::is_valid`), else the trace id in lowercase hexadecimal.
pub open spec fn trace_id_of(trace: Seq<u8>, span: Seq<u8>) -> Option<Seq<char>> {
    if all_zero(trace) || all_zero(span) {
        None
    } else {
        Some(hex_lower(trace))
    }
}

/// Whether every byte of `b` is zero.
fn is_all_zero(b: &Vec<u8>) -> (r: bool)
    ensures
        r == all_zero(b@),
{
    let mut i: usize = 0;
    while i < b.len()
        invariant
            i <= b@.len(),
            forall|k: int| 0 <= k < i ==> b@[k] == 0,
        decreases b@.len() - i,
    {
        if b[i] != 0 {
            return false;
        }
        i = i + 1;
    }
    true
}

/// The trace id that a span context with trace id bytes `trace` and span id
/// bytes `span` gives: none when either id is all zero, else the trace id
/// in lowercase hexadecimal.
pub fn trace_id_from(trace: &Vec<u8>, span: &Vec<u8>) -> (r: Option<String>)
    requires
        trace@.len() == 16,
    ensures
        opt_view(r) == trace_id_of(trace@, span@),
{
    if is_all_zero(trace) || is_all_zero(span) {
        None
    } else {
        let text = trace_id_text(trace.as_slice());
        Some(text)
    }
}

/// The trace id of the current request, when its span belongs to a
/// recorded trace: 32 lowercase hexadecimal digits of a trace id that is not
/// all zero, read from a span context whose span id is not all zero either.
/// Which span is current depends on the request being served.
pub fn current_trace_id() -> (r: Option<String>)
    ensures
        exists|trace: Seq<u8>, span: Seq<u8>|
            trace.len() == 16 && span.len() == 8 && opt_view(r) == #[trigger] trace_id_of(
                trace,
                span,
            ),
{
    let ctx = current_span_context();
    let trace = span_trace_bytes(&ctx);
    let span = span_id_bytes(&ctx);
    let r = trace_id_from(&trace, &span);
    assert(opt_view(r) == trace_id_of(trace@, span@));
    r
}

/// The URI that names a kind of problem.
pub open spec fn problem_uri(problem_type: Seq<char>) -> Seq<char> {
    "https://api.yourdomain.com/errors/"@ + problem_type
}

/// The optional text's view.
pub open spec fn opt_view(o: Option<String>) -> Option<Seq<char>> {
    match o {
        Some(s) => Some(s@),
        None => None,
    }
}

/// `p` is the problem of the given kind, without an example.
pub open spec fn is_problem(
    p: ProblemDetail,
    status: u16,
    problem_type: Seq<char>,
    title: Seq<char>,
    detail: Seq<char>,
) -> bool {
    &&& p.problem_type@ == problem_uri(problem_type)
    &&& p.title@ == title
    &&& p.status == status
    &&& p.detail@ == detail
    &&& p.example_id is None
}

impl ProblemDetail {
    /// A problem of kind `problem_type` with the given trace id.
    pub fn with_trace(
        status: u16,
        problem_type: &str,
        title: &str,
        detail: String,
        trace_id: Option<String>,
    ) -> (r: ProblemDetail)
        ensures
            is_problem(r, status, problem_type@, title@, detail@),
            opt_view(r.trace_id) == opt_view(trace_id),
    {
        let mut uri = String::from_str("https://api.yourdomain.com/errors/");
        uri.append(problem_type);
        ProblemDetail {
            problem_type: uri,
            title: title.to_owned(),
            status,
            detail,
            trace_id,
            example_id: None,
        }
    }

    /// A problem of kind `problem_type`, carrying the current request's
    /// trace id when there is one.
    pub fn new(status: u16, problem_type: &str, title: &str, detail: String) -> (r: ProblemDetail)
        ensures
            is_problem(r, status, problem_type@, title@, detail@),
            exists|trace: Seq<u8>, span: Seq<u8>|
                trace.len() == 16 && span.len() == 8 && opt_view(r.trace_id) == #[trigger] trace_id_of(
                    trace,
                    span,
                ),
    {
        Self::with_trace(status, problem_type, title, detail, current_trace_id())
    }

    /// The same problem, concerning example `example_id`.
    pub fn with_example(self, example_id: &str) -> (r: ProblemDetail)
        ensures
            r.problem_type == self.problem_type,
            r.title == self.title,
            r.status == self.status,
            r.detail == self.detail,
            r.trace_id == self.trace_id,
            opt_view(r.example_id) == Some(example_id@),
    {
        let mut p = self;
        p.example_id = Some(example_id.to_owned());
        p
    }

    /// 401: the request's signature was refused.
    pub fn unauthorized(detail: String) -> (r: ProblemDetail)
        ensures
            is_problem(r, 401, "unauthorized"@, "Unauthorized"@, detail@),
    {
        Self::new(401, "unauthorized", "Unauthorized", detail)
    }

    /// 403: the request's origin is not allowed.
    pub fn forbidden(detail: String) -> (r: ProblemDetail)
        ensures
            is_problem(r, 403, "forbidden"@, "Forbidden"@, detail@),
    {
        Self::new(403, "forbidden", "Forbidden", detail)
    }

    /// 400: the request is malformed.
    pub fn bad_request(detail: String) -> (r: ProblemDetail)
        ensures
            is_problem(r, 400, "bad-request"@, "Bad Request"@, detail@),
    {
        Self::new(400, "bad-request", "Bad Request", detail)
    }

    /// 429: the client sent too many requests.
    pub fn rate_limited(retry_after_secs: u64) -> (r: ProblemDetail)
        ensures
            is_problem(
                r,
                429,
                "rate-limited"@,
                "Rate Limited"@,
                "Too many requests. Retry in "@ + decimal(retry_after_secs as nat) + " seconds."@,
            ),
    {
        let mut detail = String::from_str("Too many requests. Retry in ");
        let n = decimal_string(retry_after_secs);
        detail.append(n.as_str());
        detail.append(" seconds.");
        Self::new(429, "rate-limited", "Rate Limited", detail)
    }

    /// 408: code ran longer than allowed.
    pub fn execution_timeout(language: &str, timeout_ms: u64) -> (r: ProblemDetail)
        ensures
            is_problem(
                r,
                408,
                "execution-timeout"@,
                "Execution Timed Out"@,
                "The "@ + language@ + " execution exceeded the "@ + decimal(timeout_ms as nat)
                    + "ms limit."@,
            ),
    {
        let mut detail = String::from_str("The ");
        detail.append(language);
        detail.append(" execution exceeded the ");
        let n = decimal_string(timeout_ms);
        detail.append(n.as_str());
        detail.append("ms limit.");
        Self::new(408, "execution-timeout", "Execution Timed Out", detail)
    }

    /// 503: the upstream service is unavailable and its circuit is open.
    pub fn upstream_unavailable(service: &str) -> (r: ProblemDetail)
        ensures
            is_problem(
                r,
                503,
                "upstream-unavailable"@,
                "Upstream Service Unavailable"@,
                service@
                    + " is temporarily unavailable. The circuit breaker is open. Cached results may be served with a staleness warning."@,
            ),
    {
        let mut detail = String::from_str(service);
        detail.append(
            " is temporarily unavailable. The circuit breaker is open. Cached results may be served with a staleness warning.",
        );
        Self::new(503, "upstream-unavailable", "Upstream Service Unavailable", detail)
    }

    /// 502: the upstream service answered with an error.
    pub fn upstream_error(service: &str, detail: String) -> (r: ProblemDetail)
        ensures
            is_problem(r, 502, "upstream-error"@, "Upstream Error"@, service@ + ": "@ + detail@),
    {
        let mut text = String::from_str(service);
        text.append(": ");
        text.append(detail.as_str());
        Self::new(502, "upstream-error", "Upstream Error", text)
    }

    /// 400: the submitted code differs too much from the example.
    pub fn similarity_rejected(similarity_pct: u64, example_id: &str) -> (r: ProblemDetail)
        ensures
            r.problem_type@ == problem_uri("similarity-rejected"@),
            r.title@ == "Code Too Different"@,
            r.status == 400,
            r.detail@ == "Submitted code is only "@ + decimal(similarity_pct as nat)
                + "% similar to example '"@ + example_id@
                + "'. This playground is for exploring the provided examples, not running arbitrary code."@,
            opt_view(r.example_id) == Some(example_id@),
    {
        let mut detail = String::from_str("Submitted code is only ");
        let n = decimal_string(similarity_pct);
        detail.append(n.as_str());
        detail.append("% similar to example '");
        detail.append(example_id);
        detail.append(
            "'. This playground is for exploring the provided examples, not running arbitrary code.",
        );
        Self::new(400, "similarity-rejected", "Code Too Different", detail).with_example(example_id)
    }

    /// 400: the submitted code failed screening for `reason`.
    pub fn code_blocked(reason: &str) -> (r: ProblemDetail)
        ensures
            is_problem(
                r,
                400,
                "code-blocked"@,
                "Code Rejected"@,
                "Code sanitization failed: "@ + reason@,
            ),
    {
        let mut detail = String::from_str("Code sanitization failed: ");
        detail.append(reason);
        Self::new(400, "code-blocked", "Code Rejected", detail)
    }

    /// 500: the service failed.
    pub fn internal(detail: String) -> (r: ProblemDetail)
        ensures
            is_problem(r, 500, "internal-error"@, "Internal Server Error"@, detail@),
    {
        Self::new(500, "internal-error", "Internal Server Error", detail)
    }
}

} // verus!
