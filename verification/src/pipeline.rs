//! The decisions of the execute endpoint, between its reads and its calls:
//! which requests are refused and how, where a request comes from, which
//! example it concerns and how its code is run and cached.
use crate::circuit_breaker::{after_failure, after_success, CircuitBreaker};
use crate::errors::{is_problem, ProblemDetail};
use crate::examples::{example_with_id, find_example, sanitize_for, screening_verdict, Example, Language};
use crate::headers::{lookup, Headers};
use crate::security::{
    code_similarity_counts, origin_permitted, signature_verdict, similarity_counts,
    validate_origin, RequestSigner,
};
use crate::text::{
    chars_of, parse_bounded, parse_unsigned, same_text, string_from_chars, trim, trim_chars,
};
use vstd::prelude::*;

verus! {

/// Checks a request's origin and then its signature at time `now`: a
/// foreign origin is forbidden (403), a bad signature unauthorized (401)
/// with the reason.
pub fn screen_request_at(
    allowed_origins: &[String],
    signer: &RequestSigner,
    headers: &Headers,
    body: &str,
    now: u64,
) -> (r: Result<(), ProblemDetail>)
    ensures
        !origin_permitted(headers@, allowed_origins@) ==> (r matches Err(p) && is_problem(
            p,
            403,
            "forbidden"@,
            "Forbidden"@,
            "Request origin not allowed"@,
        )),
        origin_permitted(headers@, allowed_origins@) ==> match signature_verdict(
            signer.secret(),
            signer.max_age_secs(),
            headers@,
            body@,
            now,
        ) {
            Ok(_) => r is Ok,
            Err(reason) => r matches Err(p) && is_problem(
                p,
                401,
                "unauthorized"@,
                "Unauthorized"@,
                "Invalid signature: "@ + reason@,
            ),
        },
{
    if !validate_origin(headers, allowed_origins) {
        return Err(ProblemDetail::forbidden(String::from_str("Request origin not allowed")));
    }
    match signer.validate_at(headers, body, now) {
        Ok(()) => Ok(()),
        Err(reason) => {
            let mut detail = String::from_str("Invalid signature: ");
            detail.append(reason);
            Err(ProblemDetail::unauthorized(detail))
        },
    }
}

/// `s` split at every comma (`str::split(',')`): always at least one
/// piece, empty pieces included.
pub open spec fn comma_pieces(s: Seq<char>) -> Seq<Seq<char>> {
    pieces_from(s, Seq::empty())
}

/// The pieces of `cur + s`, where `cur` is the unfinished current piece.
pub open spec fn pieces_from(s: Seq<char>, cur: Seq<char>) -> Seq<Seq<char>>
    decreases s.len(),
{
    if s.len() == 0 {
        seq![cur]
    } else if s[0] == ',' {
        seq![cur] + pieces_from(s.drop_first(), Seq::empty())
    } else {
        pieces_from(s.drop_first(), cur.push(s[0]))
    }
}

/// The views of a sequence of character vectors.
pub open spec fn char_views(v: Seq<Vec<char>>) -> Seq<Seq<char>> {
    v.map_values(|x: Vec<char>| x@)
}

/// The pieces of `s` between commas, as characters.
pub fn split_commas(s: &str) -> (r: Vec<Vec<char>>)
    ensures
        char_views(r@) == comma_pieces(s@),
        r@.len() > 0,
{
    let v = chars_of(s);
    let mut out: Vec<Vec<char>> = Vec::new();
    let mut cur: Vec<char> = Vec::new();
    let mut i: usize = 0;
    assert(v@.skip(0) =~= v@);
    assert(char_views(out@) =~= Seq::<Seq<char>>::empty());
    assert(cur@ =~= Seq::<char>::empty());
    while i < v.len()
        invariant
            v@ == s@,
            i <= v@.len(),
            char_views(out@) + pieces_from(v@.skip(i as int), cur@) == comma_pieces(s@),
        decreases v@.len() - i,
    {
        let ghost rest = v@.skip(i as int);
        let ghost prev = char_views(out@);
        assert(rest.drop_first() =~= v@.skip(i + 1));
        assert(rest[0] == v@[i as int]);
        if v[i] == ',' {
            let piece = cur;
            let ghost pv = piece@;
            out.push(piece);
            assert(char_views(out@) =~= prev.push(pv));
            assert(pieces_from(rest, pv) == seq![pv] + pieces_from(rest.drop_first(), Seq::empty()));
            assert(prev + (seq![pv] + pieces_from(rest.drop_first(), Seq::empty())) =~= prev.push(pv)
                + pieces_from(rest.drop_first(), Seq::empty()));
            cur = Vec::new();
        } else {
            let ghost old_cur = cur@;
            cur.push(v[i]);
            assert(pieces_from(rest, old_cur) == pieces_from(rest.drop_first(), cur@));
        }
        i = i + 1;
    }
    assert(v@.skip(i as int) =~= Seq::<char>::empty());
    let ghost prev = char_views(out@);
    let ghost cv = cur@;
    out.push(cur);
    assert(char_views(out@) =~= prev + seq![cv]);
    out
}

/// The comma-separated entries of a setting such as the allowed origins,
/// each trimmed of white space.
pub fn split_list(s: &str) -> (r: Vec<String>)
    ensures
        r@.len() == comma_pieces(s@).len(),
        forall|i: int| 0 <= i < r@.len() ==> #[trigger] r@[i]@ == trim(comma_pieces(s@)[i]),
{
    let pieces = split_commas(s);
    let mut out: Vec<String> = Vec::new();
    let mut i: usize = 0;
    while i < pieces.len()
        invariant
            char_views(pieces@) == comma_pieces(s@),
            i <= pieces@.len(),
            out@.len() == i,
            forall|k: int| 0 <= k < i ==> #[trigger] out@[k]@ == trim(comma_pieces(s@)[k]),
        decreases pieces@.len() - i,
    {
        assert(comma_pieces(s@)[i as int] == pieces@[i as int]@);
        let t = trim_chars(&pieces[i]);
        out.push(string_from_chars(&t));
        i = i + 1;
    }
    out
}

/// A numeric setting: `text` when it parses as a number no larger than
/// `max`, `default` otherwise.
pub fn setting_or(text: &str, default: u64, max: u64) -> (r: u64)
    ensures
        r == match parse_unsigned(text@, max as nat) {
            Some(v) => v as u64,
            None => default,
        },
{
    match parse_bounded(text, max) {
        Some(v) => v,
        None => default,
    }
}

/// The header that names the client: Cloudflare's `cf-connecting-ip`,
/// failing it `x-forwarded-for`.
pub open spec fn forwarding_header(h: Seq<crate::headers::FieldView>) -> Option<Option<Seq<char>>> {
    match lookup(h, "cf-connecting-ip"@) {
        Some(v) => Some(v),
        None => lookup(h, "x-forwarded-for"@),
    }
}

/// The client's address: the first comma-separated entry of the forwarding
/// header, trimmed, when that header is text; otherwise the peer's address.
pub open spec fn client_address(h: Seq<crate::headers::FieldView>, peer: Seq<char>) -> Seq<char> {
    match forwarding_header(h) {
        Some(Some(text)) => trim(comma_pieces(text)[0]),
        _ => peer,
    }
}

/// The client address that rate limiting counts requests under.
pub fn extract_ip(headers: &Headers, peer: &str) -> (r: String)
    ensures
        r@ == client_address(headers@, peer@),
{
    let header = match headers.get("cf-connecting-ip") {
        Some(v) => Some(v),
        None => headers.get("x-forwarded-for"),
    };
    match header {
        Some(Some(text)) => {
            let pieces = split_commas(text.as_str());
            assert(char_views(pieces@)[0] == pieces@[0]@);
            let t = trim_chars(&pieces[0]);
            string_from_chars(&t)
        },
        _ => peer.to_owned(),
    }
}

/// Whole seconds to wait, rounded up past the next second, for a refusal
/// that names `retry_after_ms`.
pub open spec fn retry_after_secs(retry_after_ms: u64) -> nat {
    (retry_after_ms / 1000 + 1) as nat
}

/// The 429 answer for a request refused by the rate limiter.
pub fn rate_limit_problem(retry_after_ms: u64) -> (r: ProblemDetail)
    ensures
        is_problem(
            r,
            429,
            "rate-limited"@,
            "Rate Limited"@,
            "Too many requests. Retry in "@ + crate::text::decimal(retry_after_secs(retry_after_ms))
                + " seconds."@,
        ),
{
    ProblemDetail::rate_limited(retry_after_ms / 1000 + 1)
}

/// How the service will run a submission, once it has passed screening.
pub struct ExecutionPlan {
    pub example: Example,
    /// The submission is the example's code unchanged.
    pub is_default: bool,
    /// Lines of the example that the submission kept, by position.
    pub matching_lines: usize,
    /// Lines of the longer of the example and the submission.
    pub total_lines: usize,
}

/// Finds the example a submission is for and screens the submitted code by
/// the rules of the example's language: an unknown example and code that
/// fails screening are bad requests (400).
pub fn prepare_execution(examples: &[Example], example_id: &str, code: &str) -> (r: Result<
    ExecutionPlan,
    ProblemDetail,
>)
    ensures
        match example_with_id(examples@, example_id@) {
            None => r matches Err(p) && is_problem(
                p,
                400,
                "bad-request"@,
                "Bad Request"@,
                "Unknown example: "@ + example_id@,
            ),
            Some(e) => match screening_verdict(e.language, code@) {
                Err(reason) => r matches Err(p) && is_problem(
                    p,
                    400,
                    "code-blocked"@,
                    "Code Rejected"@,
                    "Code sanitization failed: "@ + reason@,
                ),
                Ok(_) => r matches Ok(plan) && plan.example == e && plan.is_default == (code@
                    == e.code@) && (plan.matching_lines as nat, plan.total_lines as nat)
                    == similarity_counts(e.code@, code@),
            },
        },
{
    let example = match find_example(examples, example_id) {
        Some(e) => e,
        None => {
            let mut detail = String::from_str("Unknown example: ");
            detail.append(example_id);
            return Err(ProblemDetail::bad_request(detail));
        },
    };
    if let Err(reason) = sanitize_for(example.language, code) {
        return Err(ProblemDetail::code_blocked(reason));
    }
    let (matching, total) = code_similarity_counts(example.code, code);
    let is_default = same_text(code, example.code);
    Ok(ExecutionPlan { example, is_default, matching_lines: matching, total_lines: total })
}

/// The language whose answer format a stale cached result for `edition` is
/// read in: Rust's for `2021`, Go's for `go`; none for any other edition,
/// whose stale results are not served.
pub open spec fn stale_format(edition: Seq<char>) -> Option<Language> {
    if edition == "2021"@ {
        Some(Language::Rust)
    } else if edition == "go"@ {
        Some(Language::Go)
    } else {
        None
    }
}

/// The answer format of a stale cached result for `edition`, if it is
/// served at all.
pub fn stale_response_format(edition: &str) -> (r: Option<Language>)
    ensures
        r == stale_format(edition@),
{
    if same_text(edition, "2021") {
        Some(Language::Rust)
    } else if same_text(edition, "go") {
        Some(Language::Go)
    } else {
        None
    }
}

/// The allowed origin equal to the request's `Origin`, which the CORS
/// headers echo; none for any other origin, so that no other origin is ever
/// echoed.
pub fn matched_origin(allowed_origins: &[String], origin: Option<&str>) -> (r: Option<String>)
    ensures
        match origin {
            Some(o) => match r {
                Some(m) => m@ == o@ && exists|i: int|
                    0 <= i < allowed_origins@.len() && #[trigger] allowed_origins@[i]@ == o@,
                None => forall|i: int|
                    0 <= i < allowed_origins@.len() ==> #[trigger] allowed_origins@[i]@ != o@,
            },
            None => r is None,
        },
{
    let o = match origin {
        Some(o) => o,
        None => {
            return None;
        },
    };
    let mut i: usize = 0;
    while i < allowed_origins.len()
        invariant
            origin == Some(o),
            i <= allowed_origins@.len(),
            forall|k: int| 0 <= k < i ==> #[trigger] allowed_origins@[k]@ != o@,
        decreases allowed_origins@.len() - i,
    {
        if same_text(allowed_origins[i].as_str(), o) {
            assert(allowed_origins@[i as int]@ == o@);
            let m = allowed_origins[i].clone();
            assert(m@ == o@);
            return Some(m);
        }
        i = i + 1;
    }
    None
}


/// How an upstream service answered a request.
pub enum UpstreamOutcome {
    /// With a success status.
    Answered,
    /// With another status, given as its display text.
    Refused(String),
    /// Not at all: the request could not be sent or no answer came; the
    /// error's display text.
    Unreachable(String),
}

/// What to do with an upstream answer.
pub enum UpstreamStep {
    /// Use the answer.
    Relay,
    /// Answer the client with this problem.
    Fail(ProblemDetail),
}

/// An error status is answered with a 502 that names the service and the
/// status; an unreachable upstream with a 502 that names the service and
/// the error.
pub open spec fn refusal_reported(outcome: UpstreamOutcome, r: UpstreamStep, service: Seq<char>) -> bool {
    match outcome {
        UpstreamOutcome::Refused(status) => match r {
            UpstreamStep::Fail(p) => is_problem(
                p,
                502,
                "upstream-error"@,
                "Upstream Error"@,
                service + ": "@ + ("HTTP "@ + status@),
            ),
            _ => false,
        },
        UpstreamOutcome::Unreachable(error) => match r {
            UpstreamStep::Fail(p) => is_problem(
                p,
                502,
                "upstream-error"@,
                "Upstream Error"@,
                service + ": "@ + error@,
            ),
            _ => false,
        },
        UpstreamOutcome::Answered => r is Relay,
    }
}

/// Records an upstream answer at time `now` in the service's circuit
/// breaker and decides what to do with it: a success is relayed; an error
/// status is a failure that the client sees as a 502 naming the status; an
/// unreachable upstream is a failure that the client sees as a 502 naming
/// the error.
pub fn after_upstream_at(
    breaker: &mut CircuitBreaker,
    service: &str,
    outcome: UpstreamOutcome,
    now: u64,
) -> (r: UpstreamStep)
    ensures
        final(breaker).name() == old(breaker).name(),
        outcome is Answered ==> final(breaker).model() == after_success(old(breaker).model()),
        outcome is Answered ==> r is Relay,
        !(outcome is Answered) ==> final(breaker).model() == after_failure(old(breaker).model(), now),
        refusal_reported(outcome, r, service@),
{
    match outcome {
        UpstreamOutcome::Answered => {
            breaker.record_success();
            UpstreamStep::Relay
        },
        UpstreamOutcome::Refused(status) => {
            breaker.record_failure_at(now);
            let mut detail = String::from_str("HTTP ");
            detail.append(status.as_str());
            UpstreamStep::Fail(ProblemDetail::upstream_error(service, detail))
        },
        UpstreamOutcome::Unreachable(error) => {
            breaker.record_failure_at(now);
            UpstreamStep::Fail(ProblemDetail::upstream_error(service, error))
        },
    }
}

/// Records an upstream answer now, by the system clock; see
/// `after_upstream_at`.
pub fn after_upstream(breaker: &mut CircuitBreaker, service: &str, outcome: UpstreamOutcome) -> (r:
    UpstreamStep)
    ensures
        final(breaker).name() == old(breaker).name(),
        outcome is Answered ==> final(breaker).model() == after_success(old(breaker).model()),
        outcome is Answered ==> r is Relay,
        !(outcome is Answered) ==> exists|now: u64|
            final(breaker).model() == #[trigger] after_failure(old(breaker).model(), now),
        refusal_reported(outcome, r, service@),
{
    let now = crate::clock::unix_millis();
    after_upstream_at(breaker, service, outcome, now)
}

} // verus!
