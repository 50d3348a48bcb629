//! Pure parts of process bootstrap: the log filter directive string and the
//! fixed health-probe response.
use vstd::prelude::*;
use crate::text::{dec, owned, push_dec, quoted, debug_str};

verus! {

/// Log level used when neither an explicit level nor `RUST_LOG` is set.
pub const DEFAULT_LOG_LEVEL: &'static str = "info";

/// Log format value selecting JSON output.
pub const JSON_LOG_FORMAT: &'static str = "json";

/// Body returned by the health endpoints.
pub const HEALTH_BODY: &'static str = "ok";

/// Read buffer for the (ignored) inbound health request line.
pub const HEALTH_READ_BUF_SIZE: usize = 1024;

/// Errors raised while bootstrapping a process.
pub enum BootstrapError {
    /// The assembled filter directive string was not a valid filter.
    LogFilter(String, String),
    /// The global subscriber could not be installed.
    Init(String),
}

impl BootstrapError {
    /// The human-readable message of this error.
    pub fn message(&self) -> (r: String)
        ensures
            r@ == match *self {
                BootstrapError::LogFilter(spec, why) => "invalid log filter "@ + debug_str(spec@)
                    + ": "@ + why@,
                BootstrapError::Init(why) => "init tracing subscriber: "@ + why@,
            },
    {
        match self {
            BootstrapError::LogFilter(spec, why) => {
                let mut r = owned("invalid log filter ");
                r.append(quoted(spec.as_str()).as_str());
                r.append(": ");
                r.append(why.as_str());
                r
            },
            BootstrapError::Init(why) => {
                let mut r = owned("init tracing subscriber: ");
                r.append(why.as_str());
                r
            },
        }
    }
}

/// The directive string: `level`, then `,` and each of `extra` in order.
pub open spec fn directives(level: Seq<char>, extra: Seq<&str>) -> Seq<char>
    decreases extra.len(),
{
    if extra.len() == 0 {
        level
    } else {
        directives(level, extra.drop_last()) + seq![','] + extra.last()@
    }
}

/// Assemble a filter directive spec from a base `level` and per-crate `extra`
/// directives (e.g. `kube=warn`).
pub fn join_directives(level: &str, extra: &[&str]) -> (spec: String)
    ensures
        spec@ == directives(level@, extra@),
{
    let mut spec = owned(level);
    let mut i: usize = 0;
    while i < extra.len()
        invariant
            0 <= i <= extra.len(),
            spec@ == directives(level@, extra@.take(i as int)),
        decreases extra.len() - i,
    {
        proof {
            assert(extra@.take(i as int + 1).drop_last() =~= extra@.take(i as int));
        }
        crate::text::push_char(&mut spec, ',');
        spec.append(extra[i]);
        i += 1;
    }
    assert(extra@.take(extra.len() as int) =~= extra@);
    spec
}

/// The fixed HTTP/1.1 200 response for a health probe, whose
/// `Content-Length` is the UTF-8 byte length of `body`.
pub open spec fn health_response(body: Seq<char>) -> Seq<char> {
    "HTTP/1.1 200 OK\r\nContent-Type: text/plain\r\nContent-Length: "@
        + dec(vstd::utf8::encode_utf8(body).len()) + "\r\n\r\n"@ + body
}

/// Build the fixed HTTP/1.1 200 response served on every health probe.
pub fn health_http_response(body: &str) -> (r: String)
    ensures
        r@ == health_response(body@),
{
    let mut r = owned("HTTP/1.1 200 OK\r\nContent-Type: text/plain\r\nContent-Length: ");
    let n = body.as_bytes().len();
    assert(n as nat == vstd::utf8::encode_utf8(body@).len());
    push_dec(&mut r, n as u64);
    r.append("\r\n\r\n");
    r.append(body);
    r
}

} // verus!
