//! Request signing, origin checks, code screening and similarity of
//! submitted code to an example.
use crate::clock::unix_seconds;
use crate::digest::{hex_lower, sha256, sha256_hex};
use crate::headers::{header_text, lemma_read_after_insert, without_name, FieldView, Headers};
use crate::text::{
    chars_of, contains, decimal, decimal_string, is_prefix, lemma_parse_decimal, lines, lines_of,
    mentions_any, occurs_any, occurs_in, parse_bounded, parse_unsigned, same_text, starts_with,
    trim, trim_chars, views_of,
};
use vstd::prelude::*;
use vstd::utf8::encode_utf8;

verus! {

/// Signs request bodies with a shared secret and checks such signatures.
///
/// A signature is the lowercase hexadecimal SHA-256 digest of the secret, a
/// colon, the timestamp in decimal, a colon and the body. A signed request
/// is accepted for `max_age_secs` seconds either side of its timestamp.
pub struct RequestSigner {
    secret: String,
    max_age_secs: u64,
}

/// The bytes that a signature covers.
pub open spec fn signing_message(secret: Seq<char>, timestamp: u64, body: Seq<char>) -> Seq<u8> {
    encode_utf8(secret) + seq![58u8] + encode_utf8(decimal(timestamp as nat)) + seq![58u8]
        + encode_utf8(body)
}

/// The signature of `body` at `timestamp` under `secret`.
pub open spec fn expected_signature(secret: Seq<char>, timestamp: u64, body: Seq<char>) -> Seq<
    char,
> {
    hex_lower(sha256(signing_message(secret, timestamp, body)))
}

/// The distance between two instants, in seconds.
pub open spec fn time_distance(a: u64, b: u64) -> int {
    if a >= b {
        a - b
    } else {
        b - a
    }
}

/// The outcome of checking a signed request at time `now`.
pub open spec fn signature_verdict(
    secret: Seq<char>,
    max_age_secs: u64,
    headers: Seq<FieldView>,
    body: Seq<char>,
    now: u64,
) -> Result<(), &'static str> {
    match header_text(headers, "x-playground-signature"@) {
        None => Err("Missing signature header"),
        Some(sig) => match header_text(headers, "x-playground-timestamp"@) {
            None => Err("Missing timestamp header"),
            Some(ts_text) => match parse_unsigned(ts_text, u64::MAX as nat) {
                None => Err("Invalid timestamp"),
                Some(ts) => if time_distance(now, ts as u64) > max_age_secs {
                    Err("Request expired")
                } else if sig != expected_signature(secret, ts as u64, body) {
                    Err("Invalid signature")
                } else {
                    Ok(())
                },
            },
        },
    }
}

/// Whether `a` and `b` are equal, comparing every byte whatever their
/// contents, so that the time taken does not depend on where they differ.
pub fn constant_time_eq(a: &[u8], b: &[u8]) -> (r: bool)
    ensures
        r == (a@ == b@),
{
    if a.len() != b.len() {
        return false;
    }
    let mut acc: u8 = 0;
    let mut i: usize = 0;
    while i < a.len()
        invariant
            a@.len() == b@.len(),
            i <= a@.len(),
            (acc == 0) == (forall|k: int| 0 <= k < i ==> a@[k] == b@[k]),
        decreases a@.len() - i,
    {
        let x = a[i];
        let y = b[i];
        let next = acc | (x ^ y);
        assert((next == 0) == (acc == 0 && x == y)) by (bit_vector)
            requires
                next == acc | (x ^ y),
        ;
        assert((forall|k: int| 0 <= k < i + 1 ==> a@[k] == b@[k]) == ((forall|k: int|
            0 <= k < i ==> a@[k] == b@[k]) && a@[i as int] == b@[i as int]));
        acc = next;
        i = i + 1;
    }
    if acc == 0 {
        assert(a@ =~= b@);
    }
    acc == 0
}

impl RequestSigner {
    /// The shared secret.
    pub closed spec fn secret(&self) -> Seq<char> {
        self.secret@
    }

    /// How many seconds a signature stays valid either side of its timestamp.
    pub closed spec fn max_age_secs(&self) -> u64 {
        self.max_age_secs
    }

    /// A signer with `secret` that accepts signatures up to `max_age_secs` old.
    pub fn new(secret: String, max_age_secs: u64) -> (r: RequestSigner)
        ensures
            r.secret() == secret@,
            r.max_age_secs() == max_age_secs,
    {
        RequestSigner { secret, max_age_secs }
    }

    /// The signature of `body` at `timestamp`.
    pub fn sign(&self, timestamp: u64, body: &str) -> (r: String)
        ensures
            r@ == expected_signature(self.secret(), timestamp, body@),
            r@.len() == 64,
    {
        let mut msg: Vec<u8> = Vec::new();
        msg.extend_from_slice(self.secret.as_str().as_bytes());
        msg.push(58u8);
        let ts = decimal_string(timestamp);
        msg.extend_from_slice(ts.as_str().as_bytes());
        msg.push(58u8);
        msg.extend_from_slice(body.as_bytes());
        assert(msg@ =~= signing_message(self.secret(), timestamp, body@));
        sha256_hex(msg.as_slice())
    }

    /// Checks the signature headers of a request against its body at time
    /// `now` (seconds since the Unix epoch).
    pub fn validate_at(&self, headers: &Headers, body: &str, now: u64) -> (r: Result<
        (),
        &'static str,
    >)
        ensures
            r == signature_verdict(self.secret(), self.max_age_secs(), headers@, body@, now),
    {
        let signature = match headers.get_text("x-playground-signature") {
            Some(s) => s,
            None => {
                return Err("Missing signature header");
            },
        };
        let timestamp_str = match headers.get_text("x-playground-timestamp") {
            Some(s) => s,
            None => {
                return Err("Missing timestamp header");
            },
        };
        let timestamp = match parse_bounded(timestamp_str.as_str(), u64::MAX) {
            Some(t) => t,
            None => {
                return Err("Invalid timestamp");
            },
        };
        let distance = if now >= timestamp {
            now - timestamp
        } else {
            timestamp - now
        };
        if distance > self.max_age_secs {
            return Err("Request expired");
        }
        let expected = self.sign(timestamp, body);
        let same = constant_time_eq(signature.as_str().as_bytes(), expected.as_str().as_bytes());
        proof {
            vstd::utf8::encode_utf8_decode_utf8(signature@);
            vstd::utf8::encode_utf8_decode_utf8(expected@);
        }
        if !same {
            return Err("Invalid signature");
        }
        Ok(())
    }

    /// Checks the signature headers of a request against its body at the
    /// current time.
    pub fn validate(&self, headers: &Headers, body: &str) -> (r: Result<(), &'static str>)
        ensures
            exists|now: u64|
                r == signature_verdict(self.secret(), self.max_age_secs(), headers@, body@, now),
    {
        let now = unix_seconds();
        self.validate_at(headers, body, now)
    }
}


/// A request that carries the signature of its own body at timestamp `ts`,
/// with `ts` written in decimal, is accepted at any time within the maximum
/// age of `ts`.
pub proof fn lemma_signed_request_accepted(
    signer: RequestSigner,
    headers: Seq<FieldView>,
    body: Seq<char>,
    ts: u64,
    now: u64,
)
    requires
        header_text(headers, "x-playground-signature"@) == Some(
            expected_signature(signer.secret(), ts, body),
        ),
        header_text(headers, "x-playground-timestamp"@) == Some(decimal(ts as nat)),
        time_distance(now, ts) <= signer.max_age_secs(),
    ensures
        signature_verdict(signer.secret(), signer.max_age_secs(), headers, body, now) == Ok::<
            (),
            &'static str,
        >(()),
{
    lemma_parse_decimal(ts);
}

/// A request whose timestamp lies further from the current time than the
/// maximum age is refused as expired, whatever its signature.
pub proof fn lemma_stale_request_expired(
    signer: RequestSigner,
    headers: Seq<FieldView>,
    body: Seq<char>,
    ts: u64,
    now: u64,
)
    requires
        header_text(headers, "x-playground-signature"@) is Some,
        header_text(headers, "x-playground-timestamp"@) == Some(decimal(ts as nat)),
        time_distance(now, ts) > signer.max_age_secs(),
    ensures
        signature_verdict(signer.secret(), signer.max_age_secs(), headers, body, now) == Err::<
            (),
            &'static str,
        >("Request expired"),
{
    lemma_parse_decimal(ts);
}

/// An accepted request carries, as its signature, the signature of its body
/// at the timestamp it carries: a request altered after signing is refused.
pub proof fn lemma_accepted_request_is_signed(
    signer: RequestSigner,
    headers: Seq<FieldView>,
    body: Seq<char>,
    now: u64,
)
    requires
        signature_verdict(signer.secret(), signer.max_age_secs(), headers, body, now) is Ok,
    ensures
        exists|ts: u64|
            #![trigger expected_signature(signer.secret(), ts, body)]
            header_text(headers, "x-playground-timestamp"@) matches Some(t) && parse_unsigned(
                t,
                u64::MAX as nat,
            ) == Some(ts as nat) && header_text(headers, "x-playground-signature"@) == Some(
                expected_signature(signer.secret(), ts, body),
            ) && time_distance(now, ts) <= signer.max_age_secs(),
{
    let t = header_text(headers, "x-playground-timestamp"@)->0;
    let ts = parse_unsigned(t, u64::MAX as nat)->0 as u64;
    assert(expected_signature(signer.secret(), ts, body) == expected_signature(
        signer.secret(),
        ts,
        body,
    ));
}


/// Whether the `Origin` header, or failing it the `Referer` header, names an
/// allowed origin: the origin must equal an allowed one, the referer must
/// begin with one. A request with neither is not allowed.
pub open spec fn origin_permitted(headers: Seq<FieldView>, allowed: Seq<String>) -> bool {
    match header_text(headers, "origin"@) {
        Some(o) => exists|i: int| 0 <= i < allowed.len() && #[trigger] allowed[i]@ == o,
        None => match header_text(headers, "referer"@) {
            Some(r) => exists|i: int| 0 <= i < allowed.len() && is_prefix(#[trigger] allowed[i]@, r),
            None => false,
        },
    }
}

fn some_equal(allowed: &[String], s: &str) -> (r: bool)
    ensures
        r == exists|i: int| 0 <= i < allowed@.len() && #[trigger] allowed@[i]@ == s@,
{
    let mut i: usize = 0;
    while i < allowed.len()
        invariant
            i <= allowed@.len(),
            forall|k: int| 0 <= k < i ==> #[trigger] allowed@[k]@ != s@,
        decreases allowed@.len() - i,
    {
        if same_text(allowed[i].as_str(), s) {
            return true;
        }
        i = i + 1;
    }
    false
}

fn some_prefix(allowed: &[String], s: &str) -> (r: bool)
    ensures
        r == exists|i: int| 0 <= i < allowed@.len() && is_prefix(#[trigger] allowed@[i]@, s@),
{
    let mut i: usize = 0;
    while i < allowed.len()
        invariant
            i <= allowed@.len(),
            forall|k: int| 0 <= k < i ==> !is_prefix(#[trigger] allowed@[k]@, s@),
        decreases allowed@.len() - i,
    {
        if starts_with(s, allowed[i].as_str()) {
            return true;
        }
        i = i + 1;
    }
    false
}

/// Whether a request comes from an allowed origin.
pub fn validate_origin(headers: &Headers, allowed_origins: &[String]) -> (r: bool)
    ensures
        r == origin_permitted(headers@, allowed_origins@),
{
    if let Some(origin) = headers.get_text("origin") {
        return some_equal(allowed_origins, origin.as_str());
    }
    if let Some(referer) = headers.get_text("referer") {
        return some_prefix(allowed_origins, referer.as_str());
    }
    false
}

/// The module paths and macros that submitted Rust code may not mention.
pub open spec fn rust_blocked_patterns() -> Seq<&'static str> {
    seq![
        "std::net",
        "std::process",
        "std::fs",
        "std::os",
        "std::env",
        "tokio::net",
        "tokio::process",
        "tokio::fs",
        "reqwest",
        "hyper",
        "asm!",
        "global_asm!",
        "include_bytes!",
        "include_str!",
    ]
}

/// The most bytes of code that a submission may hold.
pub const MAX_CODE_BYTES: usize = 10_000;

/// The outcome of screening submitted Rust code: at most 10 000 bytes, not
/// empty, holding `fn main()`, and mentioning no blocked pattern; the first
/// rule broken, in that order, names the refusal.
pub open spec fn rust_code_verdict(code: Seq<char>) -> Result<(), &'static str> {
    if encode_utf8(code).len() > MAX_CODE_BYTES {
        Err("Code too large (max 10KB)")
    } else if code.len() == 0 {
        Err("Empty code")
    } else if !occurs_in(code, "fn main()"@) {
        Err("Code must contain fn main()")
    } else if mentions_any(code, rust_blocked_patterns()) {
        Err("Code contains blocked import or macro")
    } else {
        Ok(())
    }
}

/// Screens submitted Rust code before it is sent for execution.
pub fn sanitize_code(code: &str) -> (r: Result<(), &'static str>)
    ensures
        r == rust_code_verdict(code@),
{
    if code.as_bytes().len() > MAX_CODE_BYTES {
        return Err("Code too large (max 10KB)");
    }
    if code.is_empty() {
        return Err("Empty code");
    }
    if !contains(code, "fn main()") {
        return Err("Code must contain fn main()");
    }
    let blocked_patterns: Vec<&str> = vec![
        "std::net",
        "std::process",
        "std::fs",
        "std::os",
        "std::env",
        "tokio::net",
        "tokio::process",
        "tokio::fs",
        "reqwest",
        "hyper",
        "asm!",
        "global_asm!",
        "include_bytes!",
        "include_str!",
    ];
    assert(blocked_patterns@ =~= rust_blocked_patterns());
    let chars = chars_of(code);
    if occurs_any(&chars, &blocked_patterns) {
        return Err("Code contains blocked import or macro");
    }
    Ok(())
}

/// How many of the first `n` line pairs are equal once trimmed.
pub open spec fn matching_lines(a: Seq<Seq<char>>, b: Seq<Seq<char>>, n: int) -> nat
    decreases n,
{
    if n <= 0 {
        0
    } else if trim(a[n - 1]) == trim(b[n - 1]) {
        matching_lines(a, b, n - 1) + 1
    } else {
        matching_lines(a, b, n - 1)
    }
}

/// Rust code that passes the size, emptiness and `fn main()` rules is
/// refused as naming a blocked import or macro exactly when it mentions one
/// of `std::net`, `std::process`, `std::fs`, `std::os`, `std::env`,
/// `tokio::net`, `tokio::process`, `tokio::fs`, `reqwest`, `hyper`, `asm!`,
/// `global_asm!`, `include_bytes!` or `include_str!`; otherwise it passes.
pub proof fn lemma_rust_blocked_names(code: Seq<char>)
    requires
        encode_utf8(code).len() <= MAX_CODE_BYTES,
        code.len() > 0,
        occurs_in(code, "fn main()"@),
    ensures
        rust_code_verdict(code) == (if occurs_in(code, "std::net"@) || occurs_in(code, "std::process"@)
            || occurs_in(code, "std::fs"@) || occurs_in(code, "std::os"@) || occurs_in(
            code,
            "std::env"@,
        ) || occurs_in(code, "tokio::net"@) || occurs_in(code, "tokio::process"@) || occurs_in(
            code,
            "tokio::fs"@,
        ) || occurs_in(code, "reqwest"@) || occurs_in(code, "hyper"@) || occurs_in(code, "asm!"@)
            || occurs_in(code, "global_asm!"@) || occurs_in(code, "include_bytes!"@) || occurs_in(
            code,
            "include_str!"@,
        ) {
            Err::<(), &'static str>("Code contains blocked import or macro")
        } else {
            Ok::<(), &'static str>(())
        }),
{
    let p = rust_blocked_patterns();
    assert(p.len() == 14);
    assert(p[0]@ == "std::net"@);
    assert(p[1]@ == "std::process"@);
    assert(p[2]@ == "std::fs"@);
    assert(p[3]@ == "std::os"@);
    assert(p[4]@ == "std::env"@);
    assert(p[5]@ == "tokio::net"@);
    assert(p[6]@ == "tokio::process"@);
    assert(p[7]@ == "tokio::fs"@);
    assert(p[8]@ == "reqwest"@);
    assert(p[9]@ == "hyper"@);
    assert(p[10]@ == "asm!"@);
    assert(p[11]@ == "global_asm!"@);
    assert(p[12]@ == "include_bytes!"@);
    assert(p[13]@ == "include_str!"@);
    if mentions_any(code, p) {
        let i = choose|i: int| 0 <= i < p.len() && occurs_in(code, #[trigger] p[i]@);
        assert(0 <= i < 14);
    }
}

/// The lines of `original` and `submitted` paired by position: how many
/// pairs agree once trimmed, and the line count of the longer text.
pub open spec fn similarity_counts(original: Seq<char>, submitted: Seq<char>) -> (nat, nat) {
    let a = lines_of(original);
    let b = lines_of(submitted);
    let shorter = if a.len() <= b.len() {
        a.len()
    } else {
        b.len()
    };
    let longer = if a.len() >= b.len() {
        a.len()
    } else {
        b.len()
    };
    (matching_lines(a, b, shorter as int), longer)
}

/// Compares submitted code with an example line by line: the number of
/// line positions whose trimmed lines agree, and the number of lines of the
/// longer of the two. Their ratio is the share of the example that the
/// submission kept; two texts without lines count as identical.
pub fn code_similarity_counts(original: &str, submitted: &str) -> (r: (usize, usize))
    ensures
        (r.0 as nat, r.1 as nat) == similarity_counts(original@, submitted@),
        r.0 <= r.1,
{
    let orig_lines = lines(original);
    let sub_lines = lines(submitted);
    let ghost a = views_of(orig_lines@);
    let ghost b = views_of(sub_lines@);
    let shorter = if orig_lines.len() <= sub_lines.len() {
        orig_lines.len()
    } else {
        sub_lines.len()
    };
    let longer = if orig_lines.len() >= sub_lines.len() {
        orig_lines.len()
    } else {
        sub_lines.len()
    };
    let mut matching: usize = 0;
    let mut i: usize = 0;
    while i < shorter
        invariant
            a == views_of(orig_lines@),
            b == views_of(sub_lines@),
            shorter <= orig_lines@.len(),
            shorter <= sub_lines@.len(),
            i <= shorter,
            matching as nat == matching_lines(a, b, i as int),
            matching <= i,
        decreases shorter - i,
    {
        let x = trim_chars(&orig_lines[i]);
        let y = trim_chars(&sub_lines[i]);
        assert(a[i as int] == orig_lines@[i as int]@);
        assert(b[i as int] == sub_lines@[i as int]@);
        let mut same = x.len() == y.len();
        let mut j: usize = 0;
        while same && j < x.len()
            invariant
                same ==> x@.len() == y@.len(),
                j <= x@.len(),
                same ==> forall|k: int| 0 <= k < j ==> x@[k] == y@[k],
                !same ==> x@ != y@,
            decreases x@.len() - j,
        {
            if x[j] != y[j] {
                same = false;
            }
            j = j + 1;
        }
        if same {
            assert(x@ =~= y@);
            matching = matching + 1;
        }
        i = i + 1;
    }
    proof {
        lemma_matching_lines_bounded(a, b, shorter as int);
    }
    (matching, longer)
}

proof fn lemma_matching_lines_as_positions(a: Seq<Seq<char>>, b: Seq<Seq<char>>, n: int)
    requires
        0 <= n,
    ensures
        Set::new(|i: int| 0 <= i < n && trim(a[i]) == trim(b[i])).finite(),
        matching_lines(a, b, n) == Set::new(|i: int| 0 <= i < n && trim(a[i]) == trim(b[i])).len(),
    decreases n,
{
    let s = Set::new(|i: int| 0 <= i < n && trim(a[i]) == trim(b[i]));
    if n == 0 {
        assert(s =~= Set::<int>::empty());
    } else {
        lemma_matching_lines_as_positions(a, b, n - 1);
        let prev = Set::new(|i: int| 0 <= i < n - 1 && trim(a[i]) == trim(b[i]));
        if trim(a[n - 1]) == trim(b[n - 1]) {
            assert(s =~= prev.insert(n - 1));
            assert(!prev.contains(n - 1));
        } else {
            assert(s =~= prev);
        }
    }
}

/// The lines that two texts share are counted position by position: the
/// count is the number of positions, below both line counts, whose lines
/// are equal once trimmed. A position whose trimmed lines differ never
/// counts, whatever one of them holds of the other, and the total is the
/// line count of the longer text.
pub proof fn lemma_similarity_counts_equal_lines(original: Seq<char>, submitted: Seq<char>)
    ensures
        similarity_counts(original, submitted).0 == Set::new(
            |i: int|
                0 <= i < lines_of(original).len() && i < lines_of(submitted).len() && trim(
                    lines_of(original)[i],
                ) == trim(lines_of(submitted)[i]),
        ).len(),
        similarity_counts(original, submitted).1 == (if lines_of(original).len() >= lines_of(
            submitted,
        ).len() {
            lines_of(original).len()
        } else {
            lines_of(submitted).len()
        }),
{
    let a = lines_of(original);
    let b = lines_of(submitted);
    let n: int = if a.len() <= b.len() {
        a.len() as int
    } else {
        b.len() as int
    };
    lemma_matching_lines_as_positions(a, b, n);
    assert(Set::new(|i: int| 0 <= i < n && trim(a[i]) == trim(b[i])) =~= Set::new(
        |i: int| 0 <= i < a.len() && i < b.len() && trim(a[i]) == trim(b[i]),
    ));
}

/// Every line of a text agrees with itself.
pub proof fn lemma_matching_lines_self(a: Seq<Seq<char>>, n: int)
    requires
        0 <= n,
    ensures
        matching_lines(a, a, n) == n,
    decreases n,
{
    if n > 0 {
        lemma_matching_lines_self(a, n - 1);
    }
}

/// Submitted code identical to the example keeps all of its lines.
pub proof fn lemma_identical_code_fully_similar(code: Seq<char>)
    ensures
        similarity_counts(code, code).0 == similarity_counts(code, code).1,
{
    lemma_matching_lines_self(lines_of(code), lines_of(code).len() as int);
}

/// Pairing lines by position does not depend on which text comes first.
proof fn lemma_matching_lines_symmetric(a: Seq<Seq<char>>, b: Seq<Seq<char>>, n: int)
    requires
        0 <= n,
    ensures
        matching_lines(a, b, n) == matching_lines(b, a, n),
    decreases n,
{
    if n > 0 {
        lemma_matching_lines_symmetric(a, b, n - 1);
    }
}

/// Similarity is symmetric: comparing `b` with `a` counts the same
/// agreeing lines and the same total as comparing `a` with `b`.
pub proof fn lemma_similarity_symmetric(a: Seq<char>, b: Seq<char>)
    ensures
        similarity_counts(a, b) == similarity_counts(b, a),
{
    let la = lines_of(a);
    let lb = lines_of(b);
    let shorter = if la.len() <= lb.len() {
        la.len()
    } else {
        lb.len()
    };
    lemma_matching_lines_symmetric(la, lb, shorter as int);
}

/// The agreeing lines never outnumber the lines of the longer text.
pub proof fn lemma_matching_lines_bounded(a: Seq<Seq<char>>, b: Seq<Seq<char>>, n: int)
    requires
        0 <= n,
    ensures
        matching_lines(a, b, n) <= n,
    decreases n,
{
    if n > 0 {
        lemma_matching_lines_bounded(a, b, n - 1);
    }
}

/// The CORS headers for the allowed origins: the first allowed origin (or
/// nothing when there is none), the permitted methods, the permitted request
/// headers and how long a preflight answer may be kept.
pub fn cors_headers(allowed_origins: &[String]) -> (r: Vec<(String, String)>)
    ensures
        r@.len() == 4,
        r@[0].0@ == "Access-Control-Allow-Origin"@,
        r@[0].1@ == (if allowed_origins@.len() > 0 {
            allowed_origins@[0]@
        } else {
            Seq::<char>::empty()
        }),
        r@[1].0@ == "Access-Control-Allow-Methods"@,
        r@[1].1@ == "GET, POST, OPTIONS"@,
        r@[2].0@ == "Access-Control-Allow-Headers"@,
        r@[2].1@ == "Content-Type, X-Playground-Signature, X-Playground-Timestamp"@,
        r@[3].0@ == "Access-Control-Max-Age"@,
        r@[3].1@ == "86400"@,
{
    let origin = if allowed_origins.len() > 0 {
        allowed_origins[0].clone()
    } else {
        String::new()
    };
    let mut r: Vec<(String, String)> = Vec::new();
    r.push((String::from_str("Access-Control-Allow-Origin"), origin));
    r.push((String::from_str("Access-Control-Allow-Methods"), String::from_str("GET, POST, OPTIONS")));
    r.push(
        (
            String::from_str("Access-Control-Allow-Headers"),
            String::from_str("Content-Type, X-Playground-Signature, X-Playground-Timestamp"),
        ),
    );
    r.push((String::from_str("Access-Control-Max-Age"), String::from_str("86400")));
    r
}


/// Headers as a client sets them for a signed request: the signature, then
/// the timestamp in decimal, over whatever headers it already had.
pub open spec fn with_signature_headers(
    h: Seq<FieldView>,
    signature: Seq<char>,
    timestamp: u64,
) -> Seq<FieldView> {
    let h1 = without_name(h, "x-playground-signature"@).push(
        ("x-playground-signature"@, Some(signature)),
    );
    without_name(h1, "x-playground-timestamp"@).push(
        ("x-playground-timestamp"@, Some(decimal(timestamp as nat))),
    )
}

/// A client that signs a body at `ts` and sends the signature and `ts` in
/// its headers has the request accepted at any time within the maximum age
/// of `ts`, whatever other headers it sends.
pub proof fn lemma_signed_headers_accepted(
    signer: RequestSigner,
    h: Seq<FieldView>,
    body: Seq<char>,
    ts: u64,
    now: u64,
)
    requires
        time_distance(now, ts) <= signer.max_age_secs(),
    ensures
        signature_verdict(
            signer.secret(),
            signer.max_age_secs(),
            with_signature_headers(h, expected_signature(signer.secret(), ts, body), ts),
            body,
            now,
        ) == Ok::<(), &'static str>(()),
{
    reveal_strlit("x-playground-signature");
    reveal_strlit("x-playground-timestamp");
    assert("x-playground-signature"@[13] != "x-playground-timestamp"@[13]);
    let sig = expected_signature(signer.secret(), ts, body);
    let h1 = without_name(h, "x-playground-signature"@).push(
        ("x-playground-signature"@, Some(sig)),
    );
    lemma_read_after_insert(h, "x-playground-signature"@, Some(sig), "x-playground-signature"@);
    lemma_read_after_insert(
        h1,
        "x-playground-timestamp"@,
        Some(decimal(ts as nat)),
        "x-playground-signature"@,
    );
    lemma_read_after_insert(
        h1,
        "x-playground-timestamp"@,
        Some(decimal(ts as nat)),
        "x-playground-timestamp"@,
    );
    lemma_signed_request_accepted(
        signer,
        with_signature_headers(h, sig, ts),
        body,
        ts,
        now,
    );
}

} // verus!
