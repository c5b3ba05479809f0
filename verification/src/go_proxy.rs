//! Go programs are run by the Go Playground: this module screens the code,
//! builds the form body of the compile request and reads the answer.
use crate::text::{chars_of, contains, mentions_any, occurs_any, occurs_in, same_text};
use crate::security::MAX_CODE_BYTES;
use vstd::prelude::*;
use vstd::utf8::encode_utf8;

verus! {

/// One output event of a Go program run.
pub struct GoEvent {
    pub message: String,
    /// `stdout` or `stderr`.
    pub kind: String,
    /// Nanoseconds after the previous event.
    pub delay: u64,
}

/// The Go Playground's answer to a compile request.
pub struct GoPlaygroundResponse {
    /// Compiler errors; empty when the program built.
    pub errors: String,
    pub events: Option<Vec<GoEvent>>,
}

/// A byte that URL encoding keeps as it is: ASCII letters and digits, `-`,
/// `.`, `_` and `~`.
pub open spec fn is_unreserved(b: u8) -> bool {
    ||| 48 <= b <= 57
    ||| 65 <= b <= 90
    ||| 97 <= b <= 122
    ||| b == 45
    ||| b == 46
    ||| b == 95
    ||| b == 126
}

/// The uppercase hexadecimal character of a nibble.
pub open spec fn upper_hex_digit(d: nat) -> char {
    if d < 10 {
        ((48 + d) as u8) as char
    } else {
        ((55 + d) as u8) as char
    }
}

/// URL encoding of `bytes`: unreserved bytes as they are, every other byte
/// as `%` and two uppercase hexadecimal digits.
pub open spec fn percent_encoded(bytes: Seq<u8>) -> Seq<char>
    decreases bytes.len(),
{
    if bytes.len() == 0 {
        Seq::empty()
    } else {
        let b = bytes.last();
        percent_encoded(bytes.drop_last()) + if is_unreserved(b) {
            seq![b as char]
        } else {
            seq!['%', upper_hex_digit((b / 16) as nat), upper_hex_digit((b % 16) as nat)]
        }
    }
}

/// `urlencoding::encode`: percent-encodes every byte of the UTF-8 encoding
/// of `data` except ASCII letters, digits, `-`, `.`, `_` and `~`, with
/// uppercase hexadecimal digits, as the crate's encoder does.
#[verifier::external_body]
fn url_encode(data: &str) -> (r: String)
    ensures
        r@ == percent_encoded(encode_utf8(data@)),
{
    urlencoding::encode(data).into_owned()
}

/// The form body of a compile request for `code`.
pub open spec fn go_request_body(code: Seq<char>) -> Seq<char> {
    "version=2&body="@ + percent_encoded(encode_utf8(code)) + "&withVet=true"@
}

/// The form body that asks the Go Playground to vet, build and run `code`.
pub fn build_go_request_body(code: &str) -> (r: String)
    ensures
        r@ == go_request_body(code@),
{
    let mut body = String::from_str("version=2&body=");
    let encoded = url_encode(code);
    body.append(encoded.as_str());
    body.append("&withVet=true");
    body
}

/// The standard output and standard error of a run: the messages of the
/// events, in order, each to the stream its kind names (`stderr`, or
/// standard output for any other kind).
pub open spec fn go_streams(events: Seq<GoEvent>) -> (Seq<char>, Seq<char>)
    decreases events.len(),
{
    if events.len() == 0 {
        (Seq::empty(), Seq::empty())
    } else {
        let (out, err) = go_streams(events.drop_last());
        let ev = events.last();
        if ev.kind@ == "stderr"@ {
            (out, err + ev.message@)
        } else {
            (out + ev.message@, err)
        }
    }
}

/// Reads the Go Playground's answer as standard output, standard error and
/// success: compiler errors make a failed run whose standard error they are;
/// otherwise the events' messages make up the two streams.
pub fn parse_go_response(resp: &GoPlaygroundResponse) -> (r: (String, String, bool))
    ensures
        resp.errors@.len() > 0 ==> r.0@ == Seq::<char>::empty() && r.1@ == resp.errors@ && !r.2,
        resp.errors@.len() == 0 ==> r.2 && match resp.events {
            Some(events) => (r.0@, r.1@) == go_streams(events@),
            None => r.0@ == Seq::<char>::empty() && r.1@ == Seq::<char>::empty(),
        },
{
    if !resp.errors.as_str().is_empty() {
        return (String::new(), resp.errors.clone(), false);
    }
    let mut stdout = String::new();
    let mut stderr = String::new();
    if let Some(events) = &resp.events {
        let mut i: usize = 0;
        while i < events.len()
            invariant
                i <= events@.len(),
                (stdout@, stderr@) == go_streams(events@.take(i as int)),
            decreases events@.len() - i,
        {
            assert(events@.take(i + 1).drop_last() =~= events@.take(i as int));
            assert(events@.take(i + 1).last() == events@[i as int]);
            let event = &events[i];
            if same_text(event.kind.as_str(), "stderr") {
                stderr.append(event.message.as_str());
            } else {
                stdout.append(event.message.as_str());
            }
            i = i + 1;
        }
        assert(events@.take(events@.len() as int) =~= events@);
    }
    (stdout, stderr, true)
}

/// The imports that submitted Go code may not mention.
pub open spec fn go_blocked_patterns() -> Seq<&'static str> {
    seq![
        "\"net/http\"",
        "\"net\"",
        "\"os/exec\"",
        "\"syscall\"",
        "\"unsafe\"",
        "\"plugin\"",
        "\"debug/",
        "\"runtime/cgo\"",
    ]
}

/// The outcome of screening submitted Go code: at most 10 000 bytes, not
/// empty, holding `package main` and `func main()`, and importing nothing
/// blocked; the first rule broken, in that order, names the refusal.
pub open spec fn go_code_verdict(code: Seq<char>) -> Result<(), &'static str> {
    if encode_utf8(code).len() > MAX_CODE_BYTES {
        Err("Code too large (max 10KB)")
    } else if code.len() == 0 {
        Err("Empty code")
    } else if !occurs_in(code, "package main"@) {
        Err("Code must contain 'package main'")
    } else if !occurs_in(code, "func main()"@) {
        Err("Code must contain 'func main()'")
    } else if mentions_any(code, go_blocked_patterns()) {
        Err("Code contains blocked import")
    } else {
        Ok(())
    }
}

/// Go code that passes the size, emptiness, `package main` and
/// `func main()` rules is refused as importing something blocked exactly
/// when it holds one of the quoted import paths `"net/http"`, `"net"`,
/// `"os/exec"`, `"syscall"`, `"unsafe"`, `"plugin"`, `"runtime/cgo"`, or a
/// quoted path starting `"debug/`; otherwise it passes.
pub proof fn lemma_go_blocked_imports(code: Seq<char>)
    requires
        encode_utf8(code).len() <= MAX_CODE_BYTES,
        code.len() > 0,
        occurs_in(code, "package main"@),
        occurs_in(code, "func main()"@),
    ensures
        go_code_verdict(code) == (if occurs_in(code, "\"net/http\""@) || occurs_in(code, "\"net\""@)
            || occurs_in(code, "\"os/exec\""@) || occurs_in(code, "\"syscall\""@) || occurs_in(
            code,
            "\"unsafe\""@,
        ) || occurs_in(code, "\"plugin\""@) || occurs_in(code, "\"debug/"@) || occurs_in(
            code,
            "\"runtime/cgo\""@,
        ) {
            Err::<(), &'static str>("Code contains blocked import")
        } else {
            Ok::<(), &'static str>(())
        }),
{
    let p = go_blocked_patterns();
    assert(p.len() == 8);
    assert(p[0]@ == "\"net/http\""@);
    assert(p[1]@ == "\"net\""@);
    assert(p[2]@ == "\"os/exec\""@);
    assert(p[3]@ == "\"syscall\""@);
    assert(p[4]@ == "\"unsafe\""@);
    assert(p[5]@ == "\"plugin\""@);
    assert(p[6]@ == "\"debug/"@);
    assert(p[7]@ == "\"runtime/cgo\""@);
    if mentions_any(code, p) {
        let i = choose|i: int| 0 <= i < p.len() && occurs_in(code, #[trigger] p[i]@);
        assert(0 <= i < 8);
    }
}

/// Screens submitted Go code before it is sent for execution.
pub fn sanitize_go(code: &str) -> (r: Result<(), &'static str>)
    ensures
        r == go_code_verdict(code@),
{
    if code.as_bytes().len() > MAX_CODE_BYTES {
        return Err("Code too large (max 10KB)");
    }
    if code.is_empty() {
        return Err("Empty code");
    }
    if !contains(code, "package main") {
        return Err("Code must contain 'package main'");
    }
    if !contains(code, "func main()") {
        return Err("Code must contain 'func main()'");
    }
    let blocked: Vec<&str> = vec![
        "\"net/http\"",
        "\"net\"",
        "\"os/exec\"",
        "\"syscall\"",
        "\"unsafe\"",
        "\"plugin\"",
        "\"debug/",
        "\"runtime/cgo\"",
    ];
    assert(blocked@ =~= go_blocked_patterns());
    let chars = chars_of(code);
    if occurs_any(&chars, &blocked) {
        return Err("Code contains blocked import");
    }
    Ok(())
}

} // verus!
