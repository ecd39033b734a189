//! The HTTP side of the monitor: reading a request's first line and headers,
//! routing, and the bytes of each response the server writes.

use vstd::prelude::*;
use crate::clock::is_ascii_digit;
use vstd::string::StringSliceAdditionalSpecFns;
use vstd::utf8::encode_utf8;
use crate::stdtext::{split_whitespace, trim, to_lowercase, lowercase, trimmed, whitespace_words};
use crate::text::{chars_of, decimal, decimal_digit, owned, push_decimal, starts_with, str_eq};

verus! {

// ── Numbers ──────────────────────────────────────────────────────────────────

pub open spec fn all_digits(s: Seq<char>) -> bool {
    forall|i: int| 0 <= i < s.len() ==> is_ascii_digit(#[trigger] s[i])
}

/// The value of a run of decimal digits.
pub open spec fn digits_value(s: Seq<char>) -> int
    decreases s.len(),
{
    if s.len() == 0 {
        0
    } else {
        10 * digits_value(s.drop_last()) + ((s.last() as u32) - 48)
    }
}

/// Reading a text as a `usize` the way `str::parse::<usize>` does: an
/// optional `+`, then at least one decimal digit, the value fitting in a
/// `usize`.
pub open spec fn parse_usize_text(s: Seq<char>) -> Option<usize> {
    let d = if s.len() > 0 && s[0] == '+' { s.skip(1) } else { s };
    if d.len() > 0 && all_digits(d) && digits_value(d) <= usize::MAX {
        Some(digits_value(d) as usize)
    } else {
        None
    }
}

proof fn lemma_digits_value_monotone(s: Seq<char>, i: int)
    requires
        all_digits(s),
        0 <= i <= s.len(),
    ensures
        0 <= digits_value(s.take(i)) <= digits_value(s),
    decreases s.len(),
{
    if s.len() > 0 {
        assert(all_digits(s.drop_last()));
        if i == s.len() {
            assert(s.take(i) =~= s);
            lemma_digits_value_monotone(s.drop_last(), i - 1);
        } else {
            assert(s.drop_last().take(i) =~= s.take(i));
            lemma_digits_value_monotone(s.drop_last(), i);
            lemma_digits_value_monotone(s.drop_last(), s.len() - 1);
            assert(s.drop_last().take(s.len() - 1) =~= s.drop_last());
        }
    } else {
        assert(s.take(i) =~= s);
    }
}

/// Reads a text as a `usize`, as `str::parse::<usize>` does.
pub fn parse_usize(s: &str) -> (r: Option<usize>)
    ensures
        r == parse_usize_text(s@),
{
    let cs = chars_of(s);
    let n = cs.len();
    let start: usize = if n > 0 && cs[0] == '+' { 1 } else { 0 };
    let ghost d = if s@.len() > 0 && s@[0] == '+' { s@.skip(1) } else { s@ };
    assert(d =~= cs@.skip(start as int));
    if start == n {
        return None;
    }
    let mut value: usize = 0;
    let mut i: usize = start;
    assert(d.take(0) =~= Seq::<char>::empty());
    while i < n
        invariant
            cs@ == s@,
            n == cs@.len(),
            start <= i <= n,
            d == cs@.skip(start as int),
            d == (if s@.len() > 0 && s@[0] == '+' { s@.skip(1) } else { s@ }),
            all_digits(d.take(i - start)),
            value == digits_value(d.take(i - start)),
        decreases n - i,
    {
        let c = cs[i];
        if !('0' <= c && c <= '9') {
            assert(d[i - start] == c);
            assert(!is_ascii_digit(d[i - start]));
            assert(!all_digits(d));
            return None;
        }
        let digit: usize = ((c as u32) - 48) as usize;
        assert(d.take(i - start + 1).drop_last() =~= d.take(i - start));
        assert(d.take(i - start + 1).last() == c);
        assert(all_digits(d.take(i - start + 1)));
        assert(digits_value(d.take(i - start + 1)) == 10 * value + digit);
        match value.checked_mul(10) {
            Some(v10) => match v10.checked_add(digit) {
                Some(v) => {
                    value = v;
                },
                None => {
                    proof {
                        if all_digits(d) {
                            lemma_digits_value_monotone(d, i - start + 1);
                            assert(digits_value(d) > usize::MAX);
                        }
                    }
                    return None;
                },
            },
            None => {
                proof {
                    if all_digits(d) {
                        lemma_digits_value_monotone(d, i - start + 1);
                    }
                }
                return None;
            },
        }
        i = i + 1;
    }
    assert(d.take(n - start) =~= d);
    Some(value)
}

/// What is written as a Content-Length reads back as the same number.
pub proof fn lemma_content_length_round_trip(n: usize)
    ensures
        parse_usize_text(decimal(n as nat)) == Some(n),
{
    lemma_decimal_digits(n as nat);
}

proof fn lemma_decimal_digit_code(d: int)
    requires
        0 <= d < 10,
    ensures
        decimal_digit(d) as u32 == 48 + d,
        is_ascii_digit(decimal_digit(d)),
        decimal_digit(d) != '+',
{
}

proof fn lemma_decimal_digits(n: nat)
    ensures
        all_digits(decimal(n)),
        digits_value(decimal(n)) == n,
        decimal(n).len() > 0,
        decimal(n)[0] != '+',
    decreases n,
{
    if n < 10 {
        lemma_decimal_digit_code(n as int);
        assert(decimal(n).drop_last() =~= Seq::<char>::empty());
        assert(decimal(n).last() == decimal_digit(n as int));
        assert(digits_value(decimal(n)) == 10 * digits_value(Seq::<char>::empty()) + (n as int));
    }
    if n >= 10 {
        lemma_decimal_digits(n / 10);
        let p = decimal(n / 10);
        lemma_decimal_digit_code((n % 10) as int);
        assert(decimal(n).drop_last() =~= p);
        assert(decimal(n)[0] == p[0]);
        assert(decimal(n).last() == decimal_digit((n % 10) as int));
        assert(digits_value(decimal(n)) == 10 * digits_value(p) + (n % 10));
        assert(10 * (n / 10) + n % 10 == n);
    }
}

// ── Requests ─────────────────────────────────────────────────────────────────

/// The method and path of a request.
#[derive(Debug)]
pub struct RequestLine {
    pub method: String,
    pub path: String,
}

/// Reads a request line: its first two white-space separated words are the
/// method and the path; a line with fewer words is no request.
pub fn parse_request_line(line: &str) -> (r: Option<RequestLine>)
    ensures
        ({
            let words = whitespace_words(trimmed(line@));
            &&& (r is Some <==> words.len() >= 2)
            &&& (r matches Some(rl) ==> rl.method@ == words[0] && rl.path@ == words[1])
        }),
{
    let trimmed_line = trim(line);
    let parts = split_whitespace(trimmed_line.as_str());
    if parts.len() < 2 {
        return None;
    }
    Some(RequestLine { method: owned(parts[0].as_str()), path: owned(parts[1].as_str()) })
}

/// The characters before the first `:` (all of them where there is none).
pub open spec fn until_colon(s: Seq<char>) -> Seq<char>
    decreases s.len(),
{
    if s.len() == 0 {
        s
    } else if s[0] == ':' {
        Seq::empty()
    } else {
        seq![s[0]] + until_colon(s.drop_first())
    }
}

/// The Content-Length a lower-cased header line gives: where it starts with
/// `content-length:`, the text after that colon (up to a next colon),
/// trimmed and read as a number.
pub open spec fn header_content_length(lower: Seq<char>) -> Option<usize> {
    if lower.len() >= 15 && lower.take(15) == "content-length:"@ {
        parse_usize_text(trimmed(until_colon(lower.skip(15))))
    } else {
        None
    }
}

/// What one header line does while the headers are read.
#[derive(Debug, Clone, Copy)]
pub struct HeaderStep {
    /// The Content-Length known after this line.
    pub content_length: usize,
    /// This line (blank once trimmed) ends the headers.
    pub end_of_headers: bool,
}

fn text_until_colon(cs: &Vec<char>, from: usize) -> (r: String)
    requires
        from <= cs@.len(),
    ensures
        r@ == until_colon(cs@.skip(from as int)),
{
    let n = cs.len();
    let mut out = String::new();
    let mut i = from;
    assert(out@ + until_colon(cs@.skip(i as int)) =~= until_colon(cs@.skip(from as int)));
    while i < n
        invariant
            n == cs@.len(),
            from <= i <= n,
            out@ + until_colon(cs@.skip(i as int)) == until_colon(cs@.skip(from as int)),
        decreases n - i,
    {
        let ghost rest = cs@.skip(i as int);
        assert(rest.drop_first() =~= cs@.skip(i + 1));
        assert(rest[0] == cs@[i as int]);
        if cs[i] == ':' {
            assert(out@ + Seq::<char>::empty() =~= out@);
            return out;
        }
        let ghost before = out@;
        out.push(cs[i]);
        assert(out@ + until_colon(cs@.skip(i + 1)) =~= before + (seq![cs@[i as int]] + until_colon(cs@.skip(i + 1))));
        i = i + 1;
    }
    assert(cs@.skip(n as int) =~= Seq::<char>::empty());
    assert(out@ + Seq::<char>::empty() =~= out@);
    out
}

/// Reads one header line: a `Content-Length` header (in any letter case)
/// whose value reads as a number replaces the length known so far; a line
/// that is blank once trimmed ends the headers.
pub fn header_line_step(line: &str, content_length: usize) -> (r: HeaderStep)
    ensures
        r.content_length == (match header_content_length(lowercase(line@)) {
            Some(n) => n,
            None => content_length,
        }),
        r.end_of_headers == (trimmed(line@).len() == 0),
{
    proof {
        reveal_strlit("content-length:");
    }
    let lower = to_lowercase(line);
    let mut len = content_length;
    if starts_with(lower.as_str(), "content-length:") {
        let cs = chars_of(lower.as_str());
        let raw = text_until_colon(&cs, 15);
        let value = trim(raw.as_str());
        if let Some(n) = parse_usize(value.as_str()) {
            len = n;
        }
    }
    let rest = trim(line);
    HeaderStep { content_length: len, end_of_headers: rest.as_str().unicode_len() == 0 }
}

// ── Routing ──────────────────────────────────────────────────────────────────

/// Where a request goes.
#[derive(Debug, Clone, Copy, PartialEq, Eq)]
pub enum Route {
    /// `GET /api/health`.
    Health,
    /// `OPTIONS` on a known endpoint: the CORS pre-flight answer.
    Options,
    /// `GET /` or `GET /index.html`.
    Index,
    /// `GET /api/status`.
    Status,
    /// `GET /api/config`.
    ConfigGet,
    /// `POST /api/config` with a body.
    ConfigPost,
    /// `POST /api/config` without a body.
    BadRequest,
    /// `GET /events`: the event stream.
    Events,
    /// Anything else.
    NotFound,
}

/// The route of a request with `method`, `path` and Content-Length.
pub open spec fn route_of(method: Seq<char>, path: Seq<char>, content_length: usize) -> Route {
    if path == "/api/health"@ && method == "GET"@ {
        Route::Health
    } else if method == "OPTIONS"@ && (path == "/api/health"@ || path == "/api/status"@ || path == "/api/config"@
        || path == "/events"@) {
        Route::Options
    } else if (path == "/"@ || path == "/index.html"@) && method == "GET"@ {
        Route::Index
    } else if path == "/api/status"@ && method == "GET"@ {
        Route::Status
    } else if path == "/api/config"@ && method == "GET"@ {
        Route::ConfigGet
    } else if path == "/api/config"@ && method == "POST"@ {
        if content_length == 0 {
            Route::BadRequest
        } else {
            Route::ConfigPost
        }
    } else if path == "/events"@ && method == "GET"@ {
        Route::Events
    } else {
        Route::NotFound
    }
}

/// Where each request goes: `OPTIONS` on any of the four API endpoints
/// (`/api/health`, `/api/status`, `/api/config`, `/events`) is the CORS
/// pre-flight; `GET` serves the health check, the page (`/` or
/// `/index.html`), the status, the settings and the event stream; `POST` on
/// `/api/config` updates the settings, or is refused when it has no body;
/// every other request is not found.
pub proof fn law_routes(method: Seq<char>, path: Seq<char>, content_length: usize)
    ensures
        ({
            let r = route_of(method, path, content_length);
            let get = method == "GET"@;
            &&& (r == Route::Options) <==> (method == "OPTIONS"@ && (path == "/api/health"@ || path == "/api/status"@
                || path == "/api/config"@ || path == "/events"@))
            &&& (r == Route::Health) <==> (get && path == "/api/health"@)
            &&& (r == Route::Index) <==> (get && (path == "/"@ || path == "/index.html"@))
            &&& (r == Route::Status) <==> (get && path == "/api/status"@)
            &&& (r == Route::ConfigGet) <==> (get && path == "/api/config"@)
            &&& (r == Route::ConfigPost) <==> (method == "POST"@ && path == "/api/config"@ && content_length > 0)
            &&& (r == Route::BadRequest) <==> (method == "POST"@ && path == "/api/config"@ && content_length == 0)
            &&& (r == Route::Events) <==> (get && path == "/events"@)
        }),
{
    reveal_strlit("GET");
    reveal_strlit("POST");
    reveal_strlit("OPTIONS");
    reveal_strlit("/api/health");
    reveal_strlit("/api/status");
    reveal_strlit("/api/config");
    reveal_strlit("/events");
    reveal_strlit("/");
    reveal_strlit("/index.html");
    assert("GET"@.len() == 3 && "POST"@.len() == 4 && "OPTIONS"@.len() == 7);
    assert("/api/health"@[5] == 'h' && "/api/status"@[5] == 's' && "/api/config"@[5] == 'c');
    assert("/index.html"@[1] == 'i' && "/api/health"@[1] == 'a');
    assert("/api/health"@.len() == 11 && "/api/status"@.len() == 11 && "/api/config"@.len() == 11);
    assert("/index.html"@.len() == 11 && "/events"@.len() == 7 && "/"@.len() == 1);
}

/// Routes a request.
pub fn route_request(method: &str, path: &str, content_length: usize) -> (r: Route)
    ensures
        r == route_of(method@, path@, content_length),
{
    let get = str_eq(method, "GET");
    if str_eq(path, "/api/health") && get {
        Route::Health
    } else if str_eq(method, "OPTIONS") && (str_eq(path, "/api/health") || str_eq(path, "/api/status")
        || str_eq(path, "/api/config") || str_eq(path, "/events")) {
        Route::Options
    } else if (str_eq(path, "/") || str_eq(path, "/index.html")) && get {
        Route::Index
    } else if str_eq(path, "/api/status") && get {
        Route::Status
    } else if str_eq(path, "/api/config") && get {
        Route::ConfigGet
    } else if str_eq(path, "/api/config") && str_eq(method, "POST") {
        if content_length == 0 {
            Route::BadRequest
        } else {
            Route::ConfigPost
        }
    } else if str_eq(path, "/events") && get {
        Route::Events
    } else {
        Route::NotFound
    }
}

// ── Responses ────────────────────────────────────────────────────────────────

/// The CORS headers of the JSON responses.
pub open spec fn cors_headers() -> Seq<char> {
    "Access-Control-Allow-Origin: *\r\nAccess-Control-Allow-Methods: GET, POST, OPTIONS\r\nAccess-Control-Allow-Headers: Content-Type\r\n"@
}

/// The head of a `200 OK` response with a body of `len` bytes.
pub open spec fn ok_head(content_type: Seq<char>, len: nat) -> Seq<char> {
    "HTTP/1.1 200 OK\r\nContent-Type: "@ + content_type + "\r\nContent-Length: "@ + decimal(len)
        + "\r\nCache-Control: no-cache\r\nConnection: close\r\n"@ + cors_headers() + "\r\n"@
}

/// The answer to a CORS pre-flight request.
pub open spec fn options_response() -> Seq<char> {
    "HTTP/1.1 204 No Content\r\nAccess-Control-Allow-Origin: *\r\nAccess-Control-Allow-Methods: GET, POST, OPTIONS\r\nAccess-Control-Allow-Headers: Content-Type\r\nAccess-Control-Max-Age: 86400\r\nContent-Length: 0\r\nConnection: close\r\n\r\n"@
}

/// `piece` stands in `text` from position `i` on.
pub open spec fn has_at(text: Seq<char>, i: int, piece: Seq<char>) -> bool {
    0 <= i && i + piece.len() <= text.len() && text.subrange(i, i + piece.len()) == piece
}

/// The head of a `200 OK` response starts with its status line, then gives
/// the content type and, on the next line, the body's length in decimal
/// (which reads back as that length); it lets any origin read the answer,
/// and it ends with the blank line that closes a head.
pub proof fn law_ok_head(content_type: Seq<char>, len: usize)
    ensures
        ({
            let h = ok_head(content_type, len as nat);
            let type_line = "Content-Type: "@ + content_type + "\r\n"@;
            let length_line = "Content-Length: "@ + decimal(len as nat) + "\r\n"@;
            &&& has_at(h, 0, "HTTP/1.1 200 OK\r\n"@)
            &&& has_at(h, 17, type_line)
            &&& has_at(h, 17 + type_line.len() as int, length_line)
            &&& parse_usize_text(decimal(len as nat)) == Some(len)
            &&& exists|i: int| has_at(h, i, "Access-Control-Allow-Origin: *\r\n"@)
            &&& has_at(h, h.len() - 4, "\r\n\r\n"@)
        }),
{
    lemma_content_length_round_trip(len);
    reveal_strlit("HTTP/1.1 200 OK\r\nContent-Type: ");
    reveal_strlit("\r\nContent-Length: ");
    reveal_strlit("\r\nCache-Control: no-cache\r\nConnection: close\r\n");
    reveal_strlit("Access-Control-Allow-Origin: *\r\nAccess-Control-Allow-Methods: GET, POST, OPTIONS\r\nAccess-Control-Allow-Headers: Content-Type\r\n");
    reveal_strlit("\r\n");
    reveal_strlit("HTTP/1.1 200 OK\r\n");
    reveal_strlit("Content-Type: ");
    reveal_strlit("Content-Length: ");
    reveal_strlit("Access-Control-Allow-Origin: *\r\n");
    reveal_strlit("\r\n\r\n");
    let a = "HTTP/1.1 200 OK\r\nContent-Type: "@;
    let b = "\r\nContent-Length: "@;
    let c = "\r\nCache-Control: no-cache\r\nConnection: close\r\n"@;
    let cors = cors_headers();
    let e = "\r\n"@;
    let d = decimal(len as nat);
    let h = ok_head(content_type, len as nat);
    assert(h =~= a + content_type + b + d + c + cors + e);
    let type_line = "Content-Type: "@ + content_type + "\r\n"@;
    let length_line = "Content-Length: "@ + d + "\r\n"@;
    assert(h.subrange(0, 17) =~= "HTTP/1.1 200 OK\r\n"@);
    assert(h.subrange(17, 17 + type_line.len() as int) =~= type_line);
    let k: int = 17 + type_line.len() as int;
    assert(h.subrange(k, k + length_line.len() as int) =~= length_line);
    let m: int = (a.len() + content_type.len() + b.len() + d.len() + c.len()) as int;
    assert(h.subrange(m, m + 32) =~= "Access-Control-Allow-Origin: *\r\n"@);
    assert(has_at(h, m, "Access-Control-Allow-Origin: *\r\n"@));
    assert(h.subrange(h.len() - 4, h.len() as int) =~= "\r\n\r\n"@);
}

/// The answer to a CORS pre-flight is `204 No Content`, lets any origin
/// send `GET`, `POST` and `OPTIONS` with a `Content-Type` header, has no
/// body, and ends with the blank line that closes a head.
pub proof fn law_options_response()
    ensures
        ({
            let r = options_response();
            &&& has_at(r, 0, "HTTP/1.1 204 No Content\r\n"@)
            &&& exists|i: int| has_at(r, i, "Access-Control-Allow-Origin: *\r\n"@)
            &&& exists|i: int| has_at(r, i, "Access-Control-Allow-Methods: GET, POST, OPTIONS\r\n"@)
            &&& exists|i: int| has_at(r, i, "Access-Control-Allow-Headers: Content-Type\r\n"@)
            &&& exists|i: int| has_at(r, i, "Content-Length: 0\r\n"@)
            &&& has_at(r, r.len() - 4, "\r\n\r\n"@)
        }),
{
    let r = options_response();
    reveal_strlit("HTTP/1.1 204 No Content\r\nAccess-Control-Allow-Origin: *\r\nAccess-Control-Allow-Methods: GET, POST, OPTIONS\r\nAccess-Control-Allow-Headers: Content-Type\r\nAccess-Control-Max-Age: 86400\r\nContent-Length: 0\r\nConnection: close\r\n\r\n");
    reveal_strlit("HTTP/1.1 204 No Content\r\n");
    reveal_strlit("Access-Control-Allow-Origin: *\r\n");
    reveal_strlit("Access-Control-Allow-Methods: GET, POST, OPTIONS\r\n");
    reveal_strlit("Access-Control-Allow-Headers: Content-Type\r\n");
    reveal_strlit("Content-Length: 0\r\n");
    reveal_strlit("\r\n\r\n");
    assert(r.subrange(0, 25) =~= "HTTP/1.1 204 No Content\r\n"@);
    assert(has_at(r, 0, "HTTP/1.1 204 No Content\r\n"@));
    assert(r.subrange(25, 57) =~= "Access-Control-Allow-Origin: *\r\n"@);
    assert(has_at(r, 25, "Access-Control-Allow-Origin: *\r\n"@));
    assert(r.subrange(57, 107) =~= "Access-Control-Allow-Methods: GET, POST, OPTIONS\r\n"@);
    assert(has_at(r, 57, "Access-Control-Allow-Methods: GET, POST, OPTIONS\r\n"@));
    assert(r.subrange(107, 151) =~= "Access-Control-Allow-Headers: Content-Type\r\n"@);
    assert(has_at(r, 107, "Access-Control-Allow-Headers: Content-Type\r\n"@));
    assert(r.subrange(182, 201) =~= "Content-Length: 0\r\n"@);
    assert(has_at(r, 182, "Content-Length: 0\r\n"@));
    assert(r.subrange(r.len() - 4, r.len() as int) =~= "\r\n\r\n"@);
    assert(has_at(r, r.len() - 4, "\r\n\r\n"@));
}

/// The head of the page response with a body of `len` bytes.
pub open spec fn index_head(len: nat) -> Seq<char> {
    "HTTP/1.1 200 OK\r\nContent-Type: text/html; charset=utf-8\r\nContent-Length: "@ + decimal(len) + "\r\n\r\n"@
}

/// The answer when the page cannot be found.
pub open spec fn index_not_found_response() -> Seq<char> {
    "HTTP/1.1 404 Not Found\r\nContent-Type: text/plain\r\nContent-Length: 9\r\n\r\nNot Found"@
}

/// The answer to an unknown route.
pub open spec fn not_found_response() -> Seq<char> {
    "HTTP/1.1 404 Not Found\r\nContent-Length: 9\r\n\r\nNot Found"@
}

/// The answer to `POST /api/config` without a body.
pub open spec fn bad_request_response() -> Seq<char> {
    "HTTP/1.1 400 Bad Request\r\nContent-Length: 0\r\n\r\n"@
}

/// The head of the event stream.
pub open spec fn sse_head() -> Seq<char> {
    "HTTP/1.1 200 OK\r\nContent-Type: text/event-stream; charset=utf-8\r\nCache-Control: no-cache\r\nConnection: keep-alive\r\nAccess-Control-Allow-Origin: *\r\nX-Accel-Buffering: no\r\n\r\n"@
}

/// The body of `GET /api/health`.
pub const HEALTH_BODY: &'static str = "{\"status\":\"ok\"}";

/// The body answering a `POST /api/config` without content.
pub const EMPTY_BODY_ERROR: &'static str = "{\"error\":\"empty body\"}";

/// The body answering a `POST /api/config` that is not an update.
pub const INVALID_JSON_ERROR: &'static str = "{\"error\":\"invalid JSON\"}";

/// The keep-alive comment of the event stream.
pub const SSE_PING: &'static str = ": ping\n\n";

/// The JSON content type.
pub const JSON_CONTENT_TYPE: &'static str = "application/json";

/// Appends bytes.
fn push_bytes(out: &mut Vec<u8>, b: &[u8])
    ensures
        final(out)@ == old(out)@ + b@,
{
    let n = b.len();
    let mut i: usize = 0;
    while i < n
        invariant
            n == b@.len(),
            i <= n,
            out@ == old(out)@ + b@.take(i as int),
        decreases n - i,
    {
        out.push(b[i]);
        assert(b@.take(i + 1) =~= b@.take(i as int).push(b@[i as int]));
        i = i + 1;
    }
    assert(b@.take(n as int) =~= b@);
}

/// Appends the UTF-8 bytes of a text.
fn push_text(out: &mut Vec<u8>, s: &str)
    ensures
        final(out)@ == old(out)@ + encode_utf8(s@),
{
    push_bytes(out, s.as_bytes());
}

/// Writes a `200 OK` response: the head, which gives the content type and
/// the body's length, then the body.
pub fn write_http_ok(out: &mut Vec<u8>, body: &[u8], content_type: &str)
    ensures
        final(out)@ == old(out)@ + encode_utf8(ok_head(content_type@, body@.len())) + body@,
{
    let mut head = owned("HTTP/1.1 200 OK\r\nContent-Type: ");
    head.append(content_type);
    head.append("\r\nContent-Length: ");
    push_decimal(&mut head, body.len() as u64);
    head.append("\r\nCache-Control: no-cache\r\nConnection: close\r\n");
    head.append("Access-Control-Allow-Origin: *\r\nAccess-Control-Allow-Methods: GET, POST, OPTIONS\r\nAccess-Control-Allow-Headers: Content-Type\r\n");
    head.append("\r\n");
    push_text(out, head.as_str());
    push_bytes(out, body);
}

/// Writes a `200 OK` JSON response.
pub fn write_http_json_ok(out: &mut Vec<u8>, body: &[u8])
    ensures
        final(out)@ == old(out)@ + encode_utf8(ok_head("application/json"@, body@.len())) + body@,
{
    write_http_ok(out, body, JSON_CONTENT_TYPE)
}

/// Writes the answer to a CORS pre-flight request.
pub fn write_http_options(out: &mut Vec<u8>)
    ensures
        final(out)@ == old(out)@ + encode_utf8(options_response()),
{
    push_text(out, "HTTP/1.1 204 No Content\r\nAccess-Control-Allow-Origin: *\r\nAccess-Control-Allow-Methods: GET, POST, OPTIONS\r\nAccess-Control-Allow-Headers: Content-Type\r\nAccess-Control-Max-Age: 86400\r\nContent-Length: 0\r\nConnection: close\r\n\r\n");
}

/// Writes the page response: the head, then the page.
pub fn write_index_ok(out: &mut Vec<u8>, page: &[u8])
    ensures
        final(out)@ == old(out)@ + encode_utf8(index_head(page@.len())) + page@,
{
    let mut head = owned("HTTP/1.1 200 OK\r\nContent-Type: text/html; charset=utf-8\r\nContent-Length: ");
    push_decimal(&mut head, page.len() as u64);
    head.append("\r\n\r\n");
    push_text(out, head.as_str());
    push_bytes(out, page);
}

/// Writes the answer when the page cannot be found.
pub fn write_index_not_found(out: &mut Vec<u8>)
    ensures
        final(out)@ == old(out)@ + encode_utf8(index_not_found_response()),
{
    push_text(out, "HTTP/1.1 404 Not Found\r\nContent-Type: text/plain\r\nContent-Length: 9\r\n\r\nNot Found");
}

/// Writes the answer to an unknown route.
pub fn write_not_found(out: &mut Vec<u8>)
    ensures
        final(out)@ == old(out)@ + encode_utf8(not_found_response()),
{
    push_text(out, "HTTP/1.1 404 Not Found\r\nContent-Length: 9\r\n\r\nNot Found");
}

/// Writes the answer to `POST /api/config` without a body.
pub fn write_bad_request(out: &mut Vec<u8>)
    ensures
        final(out)@ == old(out)@ + encode_utf8(bad_request_response()),
{
    push_text(out, "HTTP/1.1 400 Bad Request\r\nContent-Length: 0\r\n\r\n");
}

/// Writes the head of the event stream.
pub fn write_sse_head(out: &mut Vec<u8>)
    ensures
        final(out)@ == old(out)@ + encode_utf8(sse_head()),
{
    push_text(out, "HTTP/1.1 200 OK\r\nContent-Type: text/event-stream; charset=utf-8\r\nCache-Control: no-cache\r\nConnection: keep-alive\r\nAccess-Control-Allow-Origin: *\r\nX-Accel-Buffering: no\r\n\r\n");
}

/// One event of the stream: `data: <json>` and a blank line.
pub fn sse_event(json: &str) -> (r: String)
    ensures
        r@ == "data: "@ + json@ + "\n\n"@,
{
    let mut r = owned("data: ");
    r.append(json);
    r.append("\n\n");
    r
}

/// What the broadcast channel gave the event stream.
#[derive(Debug, Clone, Copy, PartialEq, Eq)]
pub enum BroadcastPoll {
    /// A new state.
    Message,
    /// The stream fell behind and missed some.
    Lagged,
    /// The channel is closed.
    Closed,
    /// Nothing new.
    Empty,
}

/// What the stream does with a poll of the broadcast channel.
#[derive(Debug, Clone, Copy, PartialEq, Eq)]
pub enum StreamAction {
    /// Send the new state as an event.
    Send,
    /// Nothing to send.
    Skip,
    /// End the stream.
    Stop,
}

/// A new state is sent; a closed channel ends the stream; otherwise nothing.
pub fn on_broadcast_poll(p: BroadcastPoll) -> (r: StreamAction)
    ensures
        r == match p {
            BroadcastPoll::Message => StreamAction::Send,
            BroadcastPoll::Closed => StreamAction::Stop,
            _ => StreamAction::Skip,
        },
{
    match p {
        BroadcastPoll::Message => StreamAction::Send,
        BroadcastPoll::Closed => StreamAction::Stop,
        _ => StreamAction::Skip,
    }
}

/// What reading from the client gave the event stream.
#[derive(Debug, Clone, Copy, PartialEq, Eq)]
pub enum ClientRead {
    /// The client closed the connection.
    Eof,
    /// The client sent something.
    Data,
    /// Nothing arrived before the read timed out.
    TimedOut,
    /// The connection failed.
    Failed,
}

/// The stream goes on unless the client closed the connection or it failed.
pub fn stream_continues(r: ClientRead) -> (c: bool)
    ensures
        c == (r == ClientRead::Data || r == ClientRead::TimedOut),
{
    match r {
        ClientRead::Data => true,
        ClientRead::TimedOut => true,
        _ => false,
    }
}

/// Whether the stream is due a keep-alive comment: more than 25 seconds
/// (`secs` and `nanos`) since the last one.
pub fn keepalive_due(secs: u64, nanos: u32) -> (r: bool)
    ensures
        r == (secs > 25 || (secs == 25 && nanos > 0)),
{
    secs > 25 || (secs == 25 && nanos > 0)
}

} // verus!
