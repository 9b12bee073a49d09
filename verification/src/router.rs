//! The router: an ordered dispatch over method and path. Routes whose
//! work is pure produce complete wire bytes; the file routes validate
//! the name against path traversal and hand a file action back to the
//! caller, which completes it with one of the `file_*_response`
//! functions once the filesystem has answered.

use vstd::prelude::*;
use vstd::string::*;
use crate::ascii;
use crate::compression;
use crate::compression::Compression;
use crate::error::ServerError;
use crate::headers;
use crate::headers::HeaderMap;
use crate::metrics;
use crate::metrics::ServerMetrics;
use crate::request;
use crate::request::HttpRequest;
use crate::request::HttpMethod;
use crate::request::RequestModel;
use crate::response;
use crate::response::HttpResponse;
use crate::response::ResponseModel;

verus! {

/// Index of the last `.` in `s`, or -1.
pub open spec fn last_dot(s: Seq<u8>) -> int
    decreases s.len(),
{
    if s.len() == 0 {
        -1
    } else if s.last() == 46 {
        s.len() - 1
    } else {
        last_dot(s.drop_last())
    }
}

proof fn lemma_last_dot_char(s: Seq<u8>, j: int)
    requires
        0 <= j <= s.len(),
        forall|k: int| j <= k < s.len() ==> s[k] != 46,
        j == 0 || s[j - 1] == 46,
    ensures
        last_dot(s) == j - 1,
    decreases s.len(),
{
    if j == s.len() {
    } else {
        assert(s.last() != 46);
        assert(forall|k: int| j <= k < s.drop_last().len() ==> s.drop_last()[k] != 46);
        if j > 0 {
            assert(s.drop_last()[j - 1] == s[j - 1]);
        }
        lemma_last_dot_char(s.drop_last(), j);
    }
}

/// The `Content-Type` guessed from a file name's extension, with a
/// fixed table and `application/octet-stream` as the default.
pub open spec fn spec_content_type(name: Seq<u8>) -> Seq<u8> {
    let d = last_dot(name);
    if d <= 0 {
        ("application/octet-stream").spec_bytes()
    } else {
        let ext = name.skip(d + 1);
        if ext == ("html").spec_bytes() || ext == ("htm").spec_bytes() {
            ("text/html").spec_bytes()
        } else if ext == ("css").spec_bytes() {
            ("text/css").spec_bytes()
        } else if ext == ("js").spec_bytes() {
            ("application/javascript").spec_bytes()
        } else if ext == ("json").spec_bytes() {
            ("application/json").spec_bytes()
        } else if ext == ("png").spec_bytes() {
            ("image/png").spec_bytes()
        } else if ext == ("jpg").spec_bytes() || ext == ("jpeg").spec_bytes() {
            ("image/jpeg").spec_bytes()
        } else if ext == ("gif").spec_bytes() {
            ("image/gif").spec_bytes()
        } else if ext == ("svg").spec_bytes() {
            ("image/svg+xml").spec_bytes()
        } else if ext == ("txt").spec_bytes() {
            ("text/plain").spec_bytes()
        } else if ext == ("pdf").spec_bytes() {
            ("application/pdf").spec_bytes()
        } else if ext == ("zip").spec_bytes() {
            ("application/zip").spec_bytes()
        } else {
            ("application/octet-stream").spec_bytes()
        }
    }
}

/// Guesses a `Content-Type` from the file extension.
pub fn guess_content_type(name: &[u8]) -> (r: &'static str)
    ensures
        r.spec_bytes() == spec_content_type(name@),
{
    let n = name.len();
    let mut j: usize = n;
    while j > 0 && name[j - 1] != 46
        invariant
            j <= n == name@.len(),
            forall|k: int| j <= k < n ==> name@[k] != 46,
        decreases j,
    {
        j = j - 1;
    }
    proof {
        lemma_last_dot_char(name@, j as int);
    }
    if j <= 1 {
        return "application/octet-stream";
    }
    let ext = vstd::slice::slice_subrange(name, j, n);
    proof {
        assert(ext@ =~= name@.skip(j as int));
    }
    if ascii::bytes_eq(ext, "html".as_bytes()) || ascii::bytes_eq(ext, "htm".as_bytes()) {
        "text/html"
    } else if ascii::bytes_eq(ext, "css".as_bytes()) {
        "text/css"
    } else if ascii::bytes_eq(ext, "js".as_bytes()) {
        "application/javascript"
    } else if ascii::bytes_eq(ext, "json".as_bytes()) {
        "application/json"
    } else if ascii::bytes_eq(ext, "png".as_bytes()) {
        "image/png"
    } else if ascii::bytes_eq(ext, "jpg".as_bytes()) || ascii::bytes_eq(ext, "jpeg".as_bytes()) {
        "image/jpeg"
    } else if ascii::bytes_eq(ext, "gif".as_bytes()) {
        "image/gif"
    } else if ascii::bytes_eq(ext, "svg".as_bytes()) {
        "image/svg+xml"
    } else if ascii::bytes_eq(ext, "txt".as_bytes()) {
        "text/plain"
    } else if ascii::bytes_eq(ext, "pdf".as_bytes()) {
        "application/pdf"
    } else if ascii::bytes_eq(ext, "zip".as_bytes()) {
        "application/zip"
    } else {
        "application/octet-stream"
    }
}

/// How one byte is written inside a JSON string: quote and backslash
/// get escaped, control bytes become `\u00XX`, all else stands as is.
pub open spec fn esc_byte(b: u8) -> Seq<u8> {
    if b == 34 {
        seq![92u8, 34u8]
    } else if b == 92 {
        seq![92u8, 92u8]
    } else if b < 32 {
        seq![92u8, 117u8, 48u8, 48u8, hex_digit(b / 16), hex_digit(b % 16)]
    } else {
        seq![b]
    }
}

pub open spec fn hex_digit(n: u8) -> u8 {
    if n < 10 {
        (48 + n) as u8
    } else {
        (87 + n) as u8
    }
}

/// A byte sequence escaped for use inside a JSON string.
pub open spec fn spec_json_escape(s: Seq<u8>) -> Seq<u8>
    decreases s.len(),
{
    if s.len() == 0 {
        Seq::empty()
    } else {
        spec_json_escape(s.drop_last()) + esc_byte(s.last())
    }
}

pub fn json_escape(s: &[u8]) -> (r: Vec<u8>)
    ensures
        r@ == spec_json_escape(s@),
{
    let mut r: Vec<u8> = Vec::new();
    let mut i: usize = 0;
    assert(r@ =~= spec_json_escape(s@.take(0)));
    while i < s.len()
        invariant
            i <= s@.len(),
            r@ == spec_json_escape(s@.take(i as int)),
        decreases s@.len() - i,
    {
        let b = s[i];
        if b == 34 {
            r.push(92);
            r.push(34);
        } else if b == 92 {
            r.push(92);
            r.push(92);
        } else if b < 32 {
            r.push(92);
            r.push(117);
            r.push(48);
            r.push(48);
            let hi = b / 16;
            let lo = b % 16;
            r.push(if hi < 10 {
                48 + hi
            } else {
                87 + hi
            });
            r.push(if lo < 10 {
                48 + lo
            } else {
                87 + lo
            });
        } else {
            r.push(b);
        }
        proof {
            assert(s@.take(i as int + 1).drop_last() =~= s@.take(i as int));
            assert(s@.take(i as int + 1).last() == s@[i as int]);
            assert(r@ =~= spec_json_escape(s@.take(i as int)) + esc_byte(s@[i as int]));
        }
        i = i + 1;
    }
    assert(s@.take(s@.len() as int) =~= s@);
    r
}

/// One header as a JSON object member.
pub open spec fn header_item(p: (Seq<u8>, Seq<u8>)) -> Seq<u8> {
    ("\"").spec_bytes() + spec_json_escape(p.0) + ("\":\"").spec_bytes() + spec_json_escape(p.1) + (
    "\"").spec_bytes()
}

/// The members of the headers object, comma-separated, in order.
pub open spec fn header_items(hs: Seq<(Seq<u8>, Seq<u8>)>) -> Seq<u8>
    decreases hs.len(),
{
    if hs.len() == 0 {
        Seq::empty()
    } else if hs.len() == 1 {
        header_item(hs[0])
    } else {
        header_items(hs.drop_last()) + (",").spec_bytes() + header_item(hs.last())
    }
}

/// The JSON object of all request headers.
pub open spec fn spec_headers_json(hs: Seq<(Seq<u8>, Seq<u8>)>) -> Seq<u8> {
    ("{").spec_bytes() + header_items(hs) + ("}").spec_bytes()
}

/// Serializes the request headers as one JSON object.
pub fn headers_json(hs: &HeaderMap) -> (r: Vec<u8>)
    ensures
        r@ == spec_headers_json(hs@),
{
    let mut r: Vec<u8> = Vec::new();
    ascii::append_bytes(&mut r, "{".as_bytes());
    let n = hs.len();
    let mut i: usize = 0;
    while i < n
        invariant
            n == hs@.len(),
            i <= n,
            r@ == ("{").spec_bytes() + header_items(hs@.take(i as int)),
        decreases n - i,
    {
        if i > 0 {
            ascii::append_bytes(&mut r, ",".as_bytes());
        }
        let (name, value) = hs.entry_at(i);
        ascii::append_bytes(&mut r, "\"".as_bytes());
        let en = json_escape(name.as_slice());
        ascii::append_bytes(&mut r, en.as_slice());
        ascii::append_bytes(&mut r, "\":\"".as_bytes());
        let ev = json_escape(value.as_slice());
        ascii::append_bytes(&mut r, ev.as_slice());
        ascii::append_bytes(&mut r, "\"".as_bytes());
        proof {
            assert(hs@.take(i as int + 1).drop_last() =~= hs@.take(i as int));
            assert(hs@.take(i as int + 1).last() == hs@[i as int]);
            if i == 0 {
                assert(r@ =~= ("{").spec_bytes() + header_items(hs@.take(1)));
            } else {
                assert(r@ =~= ("{").spec_bytes() + header_items(hs@.take(i as int + 1)));
            }
        }
        i = i + 1;
    }
    assert(hs@.take(n as int) =~= hs@);
    ascii::append_bytes(&mut r, "}".as_bytes());
    assert(r@ =~= spec_headers_json(hs@));
    r
}

/// A quotient scaled by 100, rendered with two decimals.
pub open spec fn fixed2_of(scaled: nat) -> Seq<u8> {
    ascii::dec_rep(scaled / 100) + seq![46u8, (48 + (scaled % 100) / 10) as u8, (48 + (scaled % 100)
        % 10) as u8]
}

pub fn fixed2(scaled: u128) -> (r: Vec<u8>)
    ensures
        r@ == fixed2_of(scaled as nat),
{
    let mut v = ascii::dec_u128(scaled / 100);
    v.push(46);
    v.push(48 + ((scaled % 100) / 10) as u8);
    v.push(48 + ((scaled % 100) % 10) as u8);
    assert(v@ =~= fixed2_of(scaled as nat));
    v
}

/// Average response time in milliseconds, scaled by 100; zero when no
/// request was counted.
pub open spec fn avg_scaled(m: ServerMetrics) -> nat {
    if m.request_count == 0 {
        0
    } else {
        (m.total_response_time_ms * 100) as nat / m.request_count as nat
    }
}

/// Error rate as a percentage, scaled by 100; zero when no request
/// was counted.
pub open spec fn rate_scaled(m: ServerMetrics) -> nat {
    if m.request_count == 0 {
        0
    } else {
        (m.error_count * 10000) as nat / m.request_count as nat
    }
}

/// The health route's JSON body, from a counter snapshot, an uptime
/// reading and a timestamp.
pub open spec fn spec_health_body(m: ServerMetrics, uptime: u64, ts: Seq<u8>) -> Seq<u8> {
    ("{\"metrics\":{\"active_connections\":").spec_bytes() + ascii::dec_rep(
        m.active_connections as nat,
    ) + (",\"avg_response_time_ms\":\"").spec_bytes() + fixed2_of(avg_scaled(m)) + (
    "\",\"error_rate\":\"").spec_bytes() + fixed2_of(rate_scaled(m)) + (
    "%\",\"total_errors\":").spec_bytes() + ascii::dec_rep(m.error_count as nat) + (
    ",\"total_requests\":").spec_bytes() + ascii::dec_rep(m.request_count as nat) + (
    "},\"status\":\"healthy\",\"timestamp\":\"").spec_bytes() + ts + (
    "\",\"uptime_seconds\":").spec_bytes() + ascii::dec_rep(uptime as nat) + ("}").spec_bytes()
}

pub fn health_body(m: &ServerMetrics, uptime: u64, ts: &[u8]) -> (r: Vec<u8>)
    ensures
        r@ == spec_health_body(*m, uptime, ts@),
{
    let avg: u128 = if m.request_count == 0 {
        0
    } else {
        (m.total_response_time_ms as u128 * 100) / (m.request_count as u128)
    };
    let rate: u128 = if m.request_count == 0 {
        0
    } else {
        (m.error_count as u128 * 10000) / (m.request_count as u128)
    };
    assert(avg as nat == avg_scaled(*m));
    assert(rate as nat == rate_scaled(*m));
    let mut v: Vec<u8> = Vec::new();
    ascii::append_bytes(&mut v, "{\"metrics\":{\"active_connections\":".as_bytes());
    let d1 = ascii::dec_u64(m.active_connections);
    ascii::append_bytes(&mut v, d1.as_slice());
    ascii::append_bytes(&mut v, ",\"avg_response_time_ms\":\"".as_bytes());
    let d2 = fixed2(avg);
    ascii::append_bytes(&mut v, d2.as_slice());
    ascii::append_bytes(&mut v, "\",\"error_rate\":\"".as_bytes());
    let d3 = fixed2(rate);
    ascii::append_bytes(&mut v, d3.as_slice());
    ascii::append_bytes(&mut v, "%\",\"total_errors\":".as_bytes());
    let d4 = ascii::dec_u64(m.error_count);
    ascii::append_bytes(&mut v, d4.as_slice());
    ascii::append_bytes(&mut v, ",\"total_requests\":".as_bytes());
    let d5 = ascii::dec_u64(m.request_count);
    ascii::append_bytes(&mut v, d5.as_slice());
    ascii::append_bytes(&mut v, "},\"status\":\"healthy\",\"timestamp\":\"".as_bytes());
    ascii::append_bytes(&mut v, ts);
    ascii::append_bytes(&mut v, "\",\"uptime_seconds\":".as_bytes());
    let d6 = ascii::dec_u64(uptime);
    ascii::append_bytes(&mut v, d6.as_slice());
    ascii::append_bytes(&mut v, "}".as_bytes());
    assert(v@ =~= spec_health_body(*m, uptime, ts@));
    v
}

/// The metrics route's line-oriented exposition of the five counters.
pub open spec fn spec_metrics_body(m: ServerMetrics, uptime: u64) -> Seq<u8> {
    ("# HELP http_requests_total The total number of HTTP requests\n# TYPE http_requests_total counter\nhttp_requests_total ").spec_bytes()
        + ascii::dec_rep(m.request_count as nat) + (
    "\n\n# HELP http_errors_total The total number of HTTP errors\n# TYPE http_errors_total counter\nhttp_errors_total ").spec_bytes()
        + ascii::dec_rep(m.error_count as nat) + (
    "\n\n# HELP http_active_connections Current number of active connections\n# TYPE http_active_connections gauge\nhttp_active_connections ").spec_bytes()
        + ascii::dec_rep(m.active_connections as nat) + (
    "\n\n# HELP http_response_time_milliseconds_total Total response time in milliseconds\n# TYPE http_response_time_milliseconds_total counter\nhttp_response_time_milliseconds_total ").spec_bytes()
        + ascii::dec_rep(m.total_response_time_ms as nat) + (
    "\n\n# HELP http_server_uptime_seconds Server uptime in seconds\n# TYPE http_server_uptime_seconds counter\nhttp_server_uptime_seconds ").spec_bytes()
        + ascii::dec_rep(uptime as nat) + ("\n").spec_bytes()
}

pub fn metrics_body(m: &ServerMetrics, uptime: u64) -> (r: Vec<u8>)
    ensures
        r@ == spec_metrics_body(*m, uptime),
{
    let mut v: Vec<u8> = Vec::new();
    ascii::append_bytes(
        &mut v,
        "# HELP http_requests_total The total number of HTTP requests\n# TYPE http_requests_total counter\nhttp_requests_total ".as_bytes(),
    );
    let d1 = ascii::dec_u64(m.request_count);
    ascii::append_bytes(&mut v, d1.as_slice());
    ascii::append_bytes(
        &mut v,
        "\n\n# HELP http_errors_total The total number of HTTP errors\n# TYPE http_errors_total counter\nhttp_errors_total ".as_bytes(),
    );
    let d2 = ascii::dec_u64(m.error_count);
    ascii::append_bytes(&mut v, d2.as_slice());
    ascii::append_bytes(
        &mut v,
        "\n\n# HELP http_active_connections Current number of active connections\n# TYPE http_active_connections gauge\nhttp_active_connections ".as_bytes(),
    );
    let d3 = ascii::dec_u64(m.active_connections);
    ascii::append_bytes(&mut v, d3.as_slice());
    ascii::append_bytes(
        &mut v,
        "\n\n# HELP http_response_time_milliseconds_total Total response time in milliseconds\n# TYPE http_response_time_milliseconds_total counter\nhttp_response_time_milliseconds_total ".as_bytes(),
    );
    let d4 = ascii::dec_u64(m.total_response_time_ms);
    ascii::append_bytes(&mut v, d4.as_slice());
    ascii::append_bytes(
        &mut v,
        "\n\n# HELP http_server_uptime_seconds Server uptime in seconds\n# TYPE http_server_uptime_seconds counter\nhttp_server_uptime_seconds ".as_bytes(),
    );
    let d5 = ascii::dec_u64(uptime);
    ascii::append_bytes(&mut v, d5.as_slice());
    ascii::append_bytes(&mut v, "\n".as_bytes());
    assert(v@ =~= spec_metrics_body(*m, uptime));
    v
}

/// The upload confirmation body.
pub open spec fn spec_upload_json(name: Seq<u8>, size: nat) -> Seq<u8> {
    ("{\"filename\":\"").spec_bytes() + spec_json_escape(name) + (
    "\",\"message\":\"File uploaded successfully\",\"size\":").spec_bytes() + ascii::dec_rep(size)
        + ("}").spec_bytes()
}

/// The deletion confirmation body.
pub open spec fn spec_delete_json(name: Seq<u8>) -> Seq<u8> {
    ("{\"filename\":\"").spec_bytes() + spec_json_escape(name) + (
    "\",\"message\":\"File deleted successfully\"}").spec_bytes()
}

/// The static informational page of the root route.
pub open spec fn index_html() -> Seq<u8> {
    (
    "<!DOCTYPE html>\n<html>\n<head><title>Rust HTTP Server</title></head>\n<body>\n<h1>Rust HTTP Server</h1>\n<p>A minimal HTTP/1.1 server.</p>\n<ul>\n<li>GET / - this page</li>\n<li>GET /health - health check with metrics</li>\n<li>GET /metrics - plain-text metrics</li>\n<li>GET /echo/{text} - echo service</li>\n<li>GET /user-agent - the User-Agent header</li>\n<li>GET /files/{filename} - download a file</li>\n<li>POST /files/{filename} - upload a file</li>\n<li>DELETE /files/{filename} - delete a file</li>\n<li>GET /headers - the request headers</li>\n<li>GET /api/info - server information</li>\n</ul>\n</body>\n</html>\n").spec_bytes()
}

/// The static JSON description of the server and its routes.
pub open spec fn api_info_json() -> Seq<u8> {
    (
    "{\"endpoints\":{\"DELETE\":[\"/files/{filename}\"],\"GET\":[\"/\",\"/health\",\"/echo/{text}\",\"/user-agent\",\"/files/{filename}\",\"/headers\",\"/api/info\"],\"POST\":[\"/files/{filename}\"]},\"features\":[\"Concurrent connections\",\"HTTP compression (Gzip, Deflate, Brotli)\",\"File serving and uploads\",\"RESTful API design\",\"Comprehensive error handling\",\"Structured logging\"],\"name\":\"Rust HTTP Server\",\"version\":\"1.0.0\"}").spec_bytes()
}

/// A file operation the caller must perform against the configured
/// root; the name has already passed the traversal guard.
#[derive(Debug)]
pub enum FileAction {
    Read { name: Vec<u8>, compression: Compression },
    Write { name: Vec<u8>, contents: Vec<u8> },
    Delete { name: Vec<u8> },
}

/// What routing produced: complete wire bytes, or a file action still
/// to be completed.
#[derive(Debug)]
pub enum RouteOutcome {
    Done(Vec<u8>),
    File(FileAction),
}

/// The outcome routing is specified to produce.
pub enum RouteResult {
    Done { wire: Seq<u8> },
    FileRead { name: Seq<u8>, c: Compression },
    FileWrite { name: Seq<u8>, contents: Seq<u8> },
    FileDelete { name: Seq<u8> },
    Rejected { detail: Seq<u8> },
}

/// A response of `code` with one `Content-Type` header and a body.
pub open spec fn model_plain(code: u16, ct: Seq<u8>, body: Seq<u8>) -> ResponseModel {
    ResponseModel {
        status_code: code,
        status_text: response::spec_status_text(code),
        headers: headers::set_key(
            Seq::<(Seq<u8>, Seq<u8>)>::empty(),
            ("Content-Type").spec_bytes(),
            ct,
        ),
        body,
    }
}

/// A response model after compression: the body encoded and the
/// encoding recorded, unless the body was empty or the encoding is
/// identity, which leave the response untouched.
pub open spec fn model_compress(m: ResponseModel, c: Compression) -> ResponseModel {
    if m.body.len() == 0 || c is Identity {
        m
    } else {
        ResponseModel {
            headers: headers::set_key(
                m.headers,
                ("Content-Encoding").spec_bytes(),
                compression::spec_name(c),
            ),
            body: compression::spec_compressed(c, m.body),
            ..m
        }
    }
}

/// The encoding negotiated for a request: the client's list is
/// consulted only when the request body exceeds 100 bytes or the path
/// is an echo path.
pub open spec fn spec_negotiated(req: RequestModel) -> Compression {
    if req.body.len() > 100 || ascii::is_prefix(("/echo/").spec_bytes(), req.path) {
        compression::spec_select(request::spec_encodings_of(req.headers))
    } else {
        Compression::Identity
    }
}

/// A file name that could escape the root: it holds `..`, `/` or `\`.
pub open spec fn spec_traversal(name: Seq<u8>) -> bool {
    ascii::has_dot_dot(name) || ascii::has_byte(name, 47) || ascii::has_byte(name, 92)
}

/// The headers route's outcome: the header dump as JSON, compressed
/// per the negotiated encoding.
pub open spec fn spec_headers_route(req: RequestModel) -> RouteResult {
    let c = spec_negotiated(req);
    let base = model_plain(200, ("application/json").spec_bytes(), spec_headers_json(req.headers));
    RouteResult::Done { wire: response::spec_wire(model_compress(base, c)) }
}

/// The ordered dispatch over method and path, as a function of the
/// request, a counter snapshot, an uptime reading and a timestamp.
#[verifier::opaque]
pub open spec fn spec_route(req: RequestModel, m: ServerMetrics, uptime: u64, ts: Seq<u8>) -> RouteResult {
    let c = spec_negotiated(req);
    if req.method == HttpMethod::GET && (req.path == ("/").spec_bytes() || req.path == (
    "/index.html").spec_bytes()) {
        RouteResult::Done {
            wire: response::spec_wire(model_plain(200, ("text/html").spec_bytes(), index_html())),
        }
    } else if req.method == HttpMethod::GET && req.path == ("/health").spec_bytes() {
        RouteResult::Done {
            wire: response::spec_wire(
                model_plain(
                    200,
                    ("application/json").spec_bytes(),
                    spec_health_body(m, uptime, ts),
                ),
            ),
        }
    } else if req.method == HttpMethod::GET && req.path == ("/metrics").spec_bytes() {
        RouteResult::Done {
            wire: response::spec_wire(
                ResponseModel {
                    status_code: 200,
                    status_text: response::spec_status_text(200),
                    headers: headers::set_key(
                        headers::set_key(
                            Seq::<(Seq<u8>, Seq<u8>)>::empty(),
                            ("Content-Type").spec_bytes(),
                            ("text/plain; version=0.0.4").spec_bytes(),
                        ),
                        ("Content-Type").spec_bytes(),
                        ("text/plain").spec_bytes(),
                    ),
                    body: spec_metrics_body(m, uptime),
                },
            ),
        }
    } else if req.method == HttpMethod::GET && ascii::is_prefix(("/echo/").spec_bytes(), req.path) {
        let base = model_plain(
            200,
            ("text/plain").spec_bytes(),
            req.path.skip(("/echo/").spec_bytes().len() as int),
        );
        RouteResult::Done { wire: response::spec_wire(model_compress(base, c)) }
    } else if req.method == HttpMethod::GET && req.path == ("/user-agent").spec_bytes() {
        let ua = match headers::lookup(req.headers, ("user-agent").spec_bytes()) {
            Some(v) => v,
            None => ("Unknown").spec_bytes(),
        };
        RouteResult::Done {
            wire: response::spec_wire(model_plain(200, ("text/plain").spec_bytes(), ua)),
        }
    } else if req.method == HttpMethod::GET && ascii::is_prefix(("/files/").spec_bytes(), req.path) {
        let name = req.path.skip(("/files/").spec_bytes().len() as int);
        if spec_traversal(name) {
            RouteResult::Rejected { detail: ("Invalid filename").spec_bytes() }
        } else {
            RouteResult::FileRead { name, c }
        }
    } else if req.method == HttpMethod::POST && ascii::is_prefix(
        ("/files/").spec_bytes(),
        req.path,
    ) {
        let name = req.path.skip(("/files/").spec_bytes().len() as int);
        if spec_traversal(name) {
            RouteResult::Rejected { detail: ("Invalid filename").spec_bytes() }
        } else {
            RouteResult::FileWrite { name, contents: req.body }
        }
    } else if req.method == HttpMethod::DELETE && ascii::is_prefix(
        ("/files/").spec_bytes(),
        req.path,
    ) {
        let name = req.path.skip(("/files/").spec_bytes().len() as int);
        if spec_traversal(name) {
            RouteResult::Rejected { detail: ("Invalid filename").spec_bytes() }
        } else {
            RouteResult::FileDelete { name }
        }
    } else if req.method == HttpMethod::GET && req.path == ("/api/info").spec_bytes() {
        RouteResult::Done {
            wire: response::spec_wire(
                model_plain(200, ("application/json").spec_bytes(), api_info_json()),
            ),
        }
    } else if req.method == HttpMethod::GET && req.path == ("/headers").spec_bytes() {
        spec_headers_route(req)
    } else {
        RouteResult::Done {
            wire: response::spec_wire(
                model_plain(404, ("text/plain").spec_bytes(), ("404 - Not Found").spec_bytes()),
            ),
        }
    }
}

/// How an executable outcome satisfies the specified one: exactly.
pub open spec fn route_matches(sr: RouteResult, r: Result<RouteOutcome, ServerError>) -> bool {
    match sr {
        RouteResult::Done { wire } => (r matches Ok(RouteOutcome::Done(b)) && b@ == wire),
        RouteResult::FileRead { name, c } => (r matches Ok(
            RouteOutcome::File(FileAction::Read { name: n, compression: cc }),
        ) && n@ == name && cc == c),
        RouteResult::FileWrite { name, contents } => (r matches Ok(
            RouteOutcome::File(FileAction::Write { name: n, contents: b }),
        ) && n@ == name && b@ == contents),
        RouteResult::FileDelete { name } => (r matches Ok(
            RouteOutcome::File(FileAction::Delete { name: n }),
        ) && n@ == name),
        RouteResult::Rejected { detail } => (r matches Err(e) && (e
            matches ServerError::InvalidRequest(d) && d@ == detail)),
    }
}

/// The router: holds the file-serving root and maps each request to
/// an outcome.
#[derive(Debug)]
pub struct Router {
    pub file_directory: String,
}

/// The user-agent route's body: the header's value, or `Unknown`.
pub open spec fn spec_user_agent(hs: Seq<(Seq<u8>, Seq<u8>)>) -> Seq<u8> {
    match headers::lookup(hs, ("user-agent").spec_bytes()) {
        Some(v) => v,
        None => ("Unknown").spec_bytes(),
    }
}

/// The path-traversal guard: for every file route (read, upload or
/// delete) whose name segment holds `..`, `/` or `\\`, dispatch
/// rejects the request as `Invalid filename`; no file action is ever
/// produced for such a name.
pub proof fn lemma_traversal_guard(req: RequestModel, m: ServerMetrics, uptime: u64, ts: Seq<u8>)
    requires
        ascii::is_prefix(("/files/").spec_bytes(), req.path),
        req.method == HttpMethod::GET || req.method == HttpMethod::POST || req.method
            == HttpMethod::DELETE,
        spec_traversal(req.path.skip(("/files/").spec_bytes().len() as int)),
        req.method == HttpMethod::GET ==> req.path != ("/").spec_bytes() && req.path != (
        "/index.html").spec_bytes() && req.path != ("/health").spec_bytes() && req.path != (
        "/metrics").spec_bytes() && req.path != ("/user-agent").spec_bytes() && !ascii::is_prefix(
            ("/echo/").spec_bytes(),
            req.path,
        ),
    ensures
        spec_route(req, m, uptime, ts) matches RouteResult::Rejected { detail } && detail == (
        "Invalid filename").spec_bytes(),
{
    reveal(spec_route);
}

/// The headers arm satisfies the dispatch: given the branch
/// conditions and an outcome of the right shape, `route_matches`
/// holds.
#[verifier::rlimit(100)]
proof fn lemma_headers_route(
    req: RequestModel,
    m: ServerMetrics,
    c: Compression,
    r: Result<RouteOutcome, ServerError>,
)
    requires
        req.method == HttpMethod::GET,
        req.path == ("/headers").spec_bytes(),
        req.path != ("/").spec_bytes(),
        req.path != ("/index.html").spec_bytes(),
        req.path != ("/health").spec_bytes(),
        req.path != ("/metrics").spec_bytes(),
        !ascii::is_prefix(("/echo/").spec_bytes(), req.path),
        req.path != ("/user-agent").spec_bytes(),
        !ascii::is_prefix(("/files/").spec_bytes(), req.path),
        req.path != ("/api/info").spec_bytes(),
        c == spec_negotiated(req),
        r matches Ok(RouteOutcome::Done(b)) && b@ == response::spec_wire(
            model_compress(
                model_plain(200, ("application/json").spec_bytes(), spec_headers_json(req.headers)),
                c,
            ),
        ),
    ensures
        route_matches(spec_route(req, m, 0, Seq::empty()), r),
{
    reveal(spec_route);
    assert(spec_route(req, m, 0, Seq::empty()) == spec_headers_route(req));
}

impl Router {
    pub fn new(file_directory: String) -> (r: Router)
        ensures
            r.file_directory == file_directory,
    {
        Router { file_directory }
    }

    fn handle_index(&self, request: &HttpRequest, m: &ServerMetrics) -> (r: Result<
        RouteOutcome,
        ServerError,
    >)
        requires
            request@.method == HttpMethod::GET,
            request@.path == ("/").spec_bytes() || request@.path == ("/index.html").spec_bytes(),
        ensures
            route_matches(spec_route(request@, *m, 0, Seq::empty()), r),
    {
        proof {
            reveal(spec_route);
        }
        let resp = HttpResponse::ok().html(
            "<!DOCTYPE html>\n<html>\n<head><title>Rust HTTP Server</title></head>\n<body>\n<h1>Rust HTTP Server</h1>\n<p>A minimal HTTP/1.1 server.</p>\n<ul>\n<li>GET / - this page</li>\n<li>GET /health - health check with metrics</li>\n<li>GET /metrics - plain-text metrics</li>\n<li>GET /echo/{text} - echo service</li>\n<li>GET /user-agent - the User-Agent header</li>\n<li>GET /files/{filename} - download a file</li>\n<li>POST /files/{filename} - upload a file</li>\n<li>DELETE /files/{filename} - delete a file</li>\n<li>GET /headers - the request headers</li>\n<li>GET /api/info - server information</li>\n</ul>\n</body>\n</html>\n".as_bytes_vec(),
        );
        Ok(RouteOutcome::Done(resp.build()))
    }

    fn handle_health(&self, request: &HttpRequest, m: &ServerMetrics) -> (r: Result<
        RouteOutcome,
        ServerError,
    >)
        requires
            request@.method == HttpMethod::GET,
            request@.path == ("/health").spec_bytes(),
            request@.path != ("/").spec_bytes(),
            request@.path != ("/index.html").spec_bytes(),
        ensures
            exists|uptime: u64, ts: Seq<u8>|
                #[trigger] route_matches(spec_route(request@, *m, uptime, ts), r),
    {
        proof {
            reveal(spec_route);
        }
        let uptime = m.uptime_seconds();
        let ts = metrics::now_rfc3339_bytes();
        let body = health_body(m, uptime, ts.as_slice());
        let resp = HttpResponse::ok().header(
            "Content-Type".as_bytes_vec(),
            "application/json".as_bytes_vec(),
        ).body(body);
        let r = Ok(RouteOutcome::Done(resp.build()));
        assert(route_matches(spec_route(request@, *m, uptime, ts@), r));
        r
    }

    fn handle_metrics(&self, request: &HttpRequest, m: &ServerMetrics) -> (r: Result<
        RouteOutcome,
        ServerError,
    >)
        requires
            request@.method == HttpMethod::GET,
            request@.path == ("/metrics").spec_bytes(),
            request@.path != ("/").spec_bytes(),
            request@.path != ("/index.html").spec_bytes(),
            request@.path != ("/health").spec_bytes(),
        ensures
            exists|uptime: u64, ts: Seq<u8>|
                #[trigger] route_matches(spec_route(request@, *m, uptime, ts), r),
    {
        proof {
            reveal(spec_route);
        }
        let uptime = m.uptime_seconds();
        let body = metrics_body(m, uptime);
        let resp = HttpResponse::ok().header(
            "Content-Type".as_bytes_vec(),
            "text/plain; version=0.0.4".as_bytes_vec(),
        ).text(body);
        let r = Ok(RouteOutcome::Done(resp.build()));
        assert(route_matches(spec_route(request@, *m, uptime, Seq::empty()), r));
        r
    }

    #[verifier::rlimit(100)]
    fn handle_echo(&self, request: &HttpRequest, m: &ServerMetrics, c: Compression) -> (r: Result<
        RouteOutcome,
        ServerError,
    >)
        requires
            request@.method == HttpMethod::GET,
            ascii::is_prefix(("/echo/").spec_bytes(), request@.path),
            request@.path != ("/").spec_bytes(),
            request@.path != ("/index.html").spec_bytes(),
            request@.path != ("/health").spec_bytes(),
            request@.path != ("/metrics").spec_bytes(),
            c == spec_negotiated(request@),
        ensures
            route_matches(spec_route(request@, *m, 0, Seq::empty()), r),
    {
        proof {
            reveal(spec_route);
        }
        let pre = "/echo/".as_bytes();
        let eb = vstd::slice::slice_to_vec(
            vstd::slice::slice_subrange(request.path.as_slice(), pre.len(), request.path.len()),
        );
        assert(eb@ =~= request@.path.skip(("/echo/").spec_bytes().len() as int));
        let resp = HttpResponse::ok().text(eb);
        if c == Compression::Identity {
            let r = Ok(RouteOutcome::Done(resp.build()));
            assert(route_matches(spec_route(request@, *m, 0, Seq::empty()), r));
            r
        } else {
            match resp.compress(c) {
                Ok(resp2) => {
                    let r = Ok(RouteOutcome::Done(resp2.build()));
                    assert(route_matches(spec_route(request@, *m, 0, Seq::empty()), r));
                    r
                },
                Err(e) => {
                    let r = Err(e);
                    assert(route_matches(spec_route(request@, *m, 0, Seq::empty()), r));
                    r
                },
            }
        }
    }

    fn handle_user_agent(&self, request: &HttpRequest, m: &ServerMetrics) -> (r: Result<
        RouteOutcome,
        ServerError,
    >)
        requires
            request@.method == HttpMethod::GET,
            request@.path == ("/user-agent").spec_bytes(),
            request@.path != ("/").spec_bytes(),
            request@.path != ("/index.html").spec_bytes(),
            request@.path != ("/health").spec_bytes(),
            request@.path != ("/metrics").spec_bytes(),
            !ascii::is_prefix(("/echo/").spec_bytes(), request@.path),
        ensures
            route_matches(spec_route(request@, *m, 0, Seq::empty()), r),
    {
        proof {
            reveal(spec_route);
        }
        let ua: Vec<u8> = match request.headers.get("user-agent".as_bytes()) {
            Some(v) => vstd::slice::slice_to_vec(v.as_slice()),
            None => "Unknown".as_bytes_vec(),
        };
        let resp = HttpResponse::ok().text(ua);
        Ok(RouteOutcome::Done(resp.build()))
    }

    /// The traversal guard and name extraction shared by the three
    /// file routes.
    fn file_name(&self, request: &HttpRequest) -> (r: Result<Vec<u8>, ServerError>)
        requires
            ascii::is_prefix(("/files/").spec_bytes(), request@.path),
        ensures
            ({
                let name = request@.path.skip(("/files/").spec_bytes().len() as int);
                &&& !spec_traversal(name) ==> (r matches Ok(n) && n@ == name)
                &&& spec_traversal(name) ==> (r matches Err(e) && (e
                    matches ServerError::InvalidRequest(d) && d@ == (
                "Invalid filename").spec_bytes()))
            }),
    {
        let pre = "/files/".as_bytes();
        let name = vstd::slice::slice_to_vec(
            vstd::slice::slice_subrange(request.path.as_slice(), pre.len(), request.path.len()),
        );
        assert(name@ =~= request@.path.skip(("/files/").spec_bytes().len() as int));
        if ascii::contains_dot_dot(name.as_slice()) || ascii::contains_byte(name.as_slice(), 47)
            || ascii::contains_byte(name.as_slice(), 92) {
            Err(ServerError::InvalidRequest("Invalid filename".as_bytes_vec()))
        } else {
            Ok(name)
        }
    }

    #[verifier::rlimit(100)]
    fn handle_get_file(&self, request: &HttpRequest, m: &ServerMetrics, c: Compression) -> (r:
        Result<RouteOutcome, ServerError>)
        requires
            request@.method == HttpMethod::GET,
            ascii::is_prefix(("/files/").spec_bytes(), request@.path),
            request@.path != ("/").spec_bytes(),
            request@.path != ("/index.html").spec_bytes(),
            request@.path != ("/health").spec_bytes(),
            request@.path != ("/metrics").spec_bytes(),
            !ascii::is_prefix(("/echo/").spec_bytes(), request@.path),
            request@.path != ("/user-agent").spec_bytes(),
            c == spec_negotiated(request@),
        ensures
            route_matches(spec_route(request@, *m, 0, Seq::empty()), r),
    {
        proof {
            reveal(spec_route);
        }
        match self.file_name(request) {
            Ok(name) => Ok(RouteOutcome::File(FileAction::Read { name, compression: c })),
            Err(e) => Err(e),
        }
    }

    #[verifier::rlimit(100)]
    fn handle_post_file(&self, request: &HttpRequest, m: &ServerMetrics) -> (r: Result<
        RouteOutcome,
        ServerError,
    >)
        requires
            request@.method == HttpMethod::POST,
            ascii::is_prefix(("/files/").spec_bytes(), request@.path),
        ensures
            route_matches(spec_route(request@, *m, 0, Seq::empty()), r),
    {
        proof {
            reveal(spec_route);
        }
        match self.file_name(request) {
            Ok(name) => {
                let contents = vstd::slice::slice_to_vec(request.body.as_slice());
                Ok(RouteOutcome::File(FileAction::Write { name, contents }))
            },
            Err(e) => Err(e),
        }
    }

    #[verifier::rlimit(100)]
    fn handle_delete_file(&self, request: &HttpRequest, m: &ServerMetrics) -> (r: Result<
        RouteOutcome,
        ServerError,
    >)
        requires
            request@.method == HttpMethod::DELETE,
            ascii::is_prefix(("/files/").spec_bytes(), request@.path),
        ensures
            route_matches(spec_route(request@, *m, 0, Seq::empty()), r),
    {
        proof {
            reveal(spec_route);
        }
        match self.file_name(request) {
            Ok(name) => Ok(RouteOutcome::File(FileAction::Delete { name })),
            Err(e) => Err(e),
        }
    }

    fn handle_api_info(&self, request: &HttpRequest, m: &ServerMetrics) -> (r: Result<
        RouteOutcome,
        ServerError,
    >)
        requires
            request@.method == HttpMethod::GET,
            request@.path == ("/api/info").spec_bytes(),
            request@.path != ("/").spec_bytes(),
            request@.path != ("/index.html").spec_bytes(),
            request@.path != ("/health").spec_bytes(),
            request@.path != ("/metrics").spec_bytes(),
            !ascii::is_prefix(("/echo/").spec_bytes(), request@.path),
            request@.path != ("/user-agent").spec_bytes(),
            !ascii::is_prefix(("/files/").spec_bytes(), request@.path),
        ensures
            route_matches(spec_route(request@, *m, 0, Seq::empty()), r),
    {
        proof {
            reveal(spec_route);
        }
        let resp = HttpResponse::ok().header(
            "Content-Type".as_bytes_vec(),
            "application/json".as_bytes_vec(),
        ).body(
            "{\"endpoints\":{\"DELETE\":[\"/files/{filename}\"],\"GET\":[\"/\",\"/health\",\"/echo/{text}\",\"/user-agent\",\"/files/{filename}\",\"/headers\",\"/api/info\"],\"POST\":[\"/files/{filename}\"]},\"features\":[\"Concurrent connections\",\"HTTP compression (Gzip, Deflate, Brotli)\",\"File serving and uploads\",\"RESTful API design\",\"Comprehensive error handling\",\"Structured logging\"],\"name\":\"Rust HTTP Server\",\"version\":\"1.0.0\"}".as_bytes_vec(),
        );
        Ok(RouteOutcome::Done(resp.build()))
    }

    #[verifier::rlimit(100)]
    fn handle_headers(&self, request: &HttpRequest, m: &ServerMetrics, c: Compression) -> (r:
        Result<RouteOutcome, ServerError>)
        requires
            request@.method == HttpMethod::GET,
            request@.path == ("/headers").spec_bytes(),
            request@.path != ("/").spec_bytes(),
            request@.path != ("/index.html").spec_bytes(),
            request@.path != ("/health").spec_bytes(),
            request@.path != ("/metrics").spec_bytes(),
            !ascii::is_prefix(("/echo/").spec_bytes(), request@.path),
            request@.path != ("/user-agent").spec_bytes(),
            !ascii::is_prefix(("/files/").spec_bytes(), request@.path),
            request@.path != ("/api/info").spec_bytes(),
            c == spec_negotiated(request@),
        ensures
            route_matches(spec_route(request@, *m, 0, Seq::empty()), r),
    {
        let r = match self.headers_payload(request, c) {
            Ok(b) => Ok(RouteOutcome::Done(b)),
            Err(e) => Err(e),
        };
        proof {
            lemma_headers_route(request@, *m, c, r);
        }
        r
    }

    fn headers_payload(&self, request: &HttpRequest, c: Compression) -> (r: Result<
        Vec<u8>,
        ServerError,
    >)
        ensures
            r matches Ok(b) && b@ == response::spec_wire(
                model_compress(
                    model_plain(
                        200,
                        ("application/json").spec_bytes(),
                        spec_headers_json(request@.headers),
                    ),
                    c,
                ),
            ),
    {
        let body = headers_json(&request.headers);
        let resp = HttpResponse::ok().header(
            "Content-Type".as_bytes_vec(),
            "application/json".as_bytes_vec(),
        ).body(body);
        if c == Compression::Identity {
            Ok(resp.build())
        } else {
            match resp.compress(c) {
                Ok(resp2) => Ok(resp2.build()),
                Err(e) => Err(e),
            }
        }
    }

    fn handle_not_found(&self, request: &HttpRequest, m: &ServerMetrics) -> (r: Result<
        RouteOutcome,
        ServerError,
    >)
        requires
            !(request@.method == HttpMethod::GET && (request@.path == ("/").spec_bytes()
                || request@.path == ("/index.html").spec_bytes())),
            !(request@.method == HttpMethod::GET && request@.path == ("/health").spec_bytes()),
            !(request@.method == HttpMethod::GET && request@.path == ("/metrics").spec_bytes()),
            !(request@.method == HttpMethod::GET && ascii::is_prefix(
                ("/echo/").spec_bytes(),
                request@.path,
            )),
            !(request@.method == HttpMethod::GET && request@.path == ("/user-agent").spec_bytes()),
            !(request@.method == HttpMethod::GET && ascii::is_prefix(
                ("/files/").spec_bytes(),
                request@.path,
            )),
            !(request@.method == HttpMethod::POST && ascii::is_prefix(
                ("/files/").spec_bytes(),
                request@.path,
            )),
            !(request@.method == HttpMethod::DELETE && ascii::is_prefix(
                ("/files/").spec_bytes(),
                request@.path,
            )),
            !(request@.method == HttpMethod::GET && request@.path == ("/api/info").spec_bytes()),
            !(request@.method == HttpMethod::GET && request@.path == ("/headers").spec_bytes()),
        ensures
            route_matches(spec_route(request@, *m, 0, Seq::empty()), r),
    {
        proof {
            reveal(spec_route);
        }
        Ok(RouteOutcome::Done(HttpResponse::not_found().build()))
    }

    /// Dispatches one request against the fixed rule table, reading
    /// the clock only for the health and metrics routes.
    pub fn route(&self, request: &HttpRequest, m: &ServerMetrics) -> (r: Result<
        RouteOutcome,
        ServerError,
    >)
        ensures
            exists|uptime: u64, ts: Seq<u8>|
                #[trigger] route_matches(spec_route(request@, *m, uptime, ts), r),
    {
        let path = request.path.as_slice();
        let c = if request.body.len() > 100 || ascii::starts_with(path, "/echo/".as_bytes()) {
            let encs = request.get_accepted_encodings();
            Compression::from_accept_encoding(&encs)
        } else {
            Compression::Identity
        };
        assert(c == spec_negotiated(request@));
        let r = if request.method == HttpMethod::GET && (ascii::bytes_eq(path, "/".as_bytes())
            || ascii::bytes_eq(path, "/index.html".as_bytes())) {
            self.handle_index(request, m)
        } else if request.method == HttpMethod::GET && ascii::bytes_eq(path, "/health".as_bytes()) {
            return self.handle_health(request, m);
        } else if request.method == HttpMethod::GET && ascii::bytes_eq(
            path,
            "/metrics".as_bytes(),
        ) {
            return self.handle_metrics(request, m);
        } else if request.method == HttpMethod::GET && ascii::starts_with(
            path,
            "/echo/".as_bytes(),
        ) {
            self.handle_echo(request, m, c)
        } else if request.method == HttpMethod::GET && ascii::bytes_eq(
            path,
            "/user-agent".as_bytes(),
        ) {
            self.handle_user_agent(request, m)
        } else if request.method == HttpMethod::GET && ascii::starts_with(
            path,
            "/files/".as_bytes(),
        ) {
            self.handle_get_file(request, m, c)
        } else if request.method == HttpMethod::POST && ascii::starts_with(
            path,
            "/files/".as_bytes(),
        ) {
            self.handle_post_file(request, m)
        } else if request.method == HttpMethod::DELETE && ascii::starts_with(
            path,
            "/files/".as_bytes(),
        ) {
            self.handle_delete_file(request, m)
        } else if request.method == HttpMethod::GET && ascii::bytes_eq(
            path,
            "/api/info".as_bytes(),
        ) {
            self.handle_api_info(request, m)
        } else if request.method == HttpMethod::GET && ascii::bytes_eq(path, "/headers".as_bytes())
        {
            self.handle_headers(request, m, c)
        } else {
            self.handle_not_found(request, m)
        };
        r
    }
}

/// The model of a successful file download: the guessed content type,
/// the file's bytes, compressed per the negotiated encoding.
pub open spec fn spec_read_model(name: Seq<u8>, data: Seq<u8>, c: Compression) -> ResponseModel {
    model_compress(model_plain(200, spec_content_type(name), data), c)
}

/// Completes a file download once the filesystem has answered: the
/// file's bytes become a 200 response with the guessed content type,
/// compressed per the negotiated encoding; a missing file is a
/// `FileNotFound` error.
pub fn file_read_response(name: &[u8], content: Option<Vec<u8>>, c: Compression) -> (r: Result<
    Vec<u8>,
    ServerError,
>)
    ensures
        match content {
            Some(data) => (r matches Ok(b) && b@ == response::spec_wire(
                spec_read_model(name@, data@, c),
            )),
            None => (r matches Err(e) && (e matches ServerError::FileNotFound(d) && d@ == (
            "File not found: ").spec_bytes() + name@)),
        },
{
    match content {
        None => {
            let mut d: Vec<u8> = Vec::new();
            ascii::append_bytes(&mut d, "File not found: ".as_bytes());
            ascii::append_bytes(&mut d, name);
            Err(ServerError::FileNotFound(d))
        },
        Some(data) => {
            let ct = guess_content_type(name);
            let resp = HttpResponse::ok().header(
                "Content-Type".as_bytes_vec(),
                ct.as_bytes_vec(),
            ).body(data);
            if c == Compression::Identity {
                Ok(resp.build())
            } else {
                match resp.compress(c) {
                    Ok(resp2) => Ok(resp2.build()),
                    Err(e) => Err(e),
                }
            }
        },
    }
}

/// Completes a successful upload: a 201 response whose JSON body
/// confirms the file name and size.
pub fn file_write_response(name: &[u8], size: usize) -> (r: Vec<u8>)
    ensures
        r@ == response::spec_wire(
            model_plain(
                201,
                ("application/json").spec_bytes(),
                spec_upload_json(name@, size as nat),
            ),
        ),
{
    let mut body: Vec<u8> = Vec::new();
    ascii::append_bytes(&mut body, "{\"filename\":\"".as_bytes());
    let en = json_escape(name);
    ascii::append_bytes(&mut body, en.as_slice());
    ascii::append_bytes(
        &mut body,
        "\",\"message\":\"File uploaded successfully\",\"size\":".as_bytes(),
    );
    let sd = ascii::dec_u64(size as u64);
    ascii::append_bytes(&mut body, sd.as_slice());
    ascii::append_bytes(&mut body, "}".as_bytes());
    assert(body@ =~= spec_upload_json(name@, size as nat));
    let resp = HttpResponse::created().header(
        "Content-Type".as_bytes_vec(),
        "application/json".as_bytes_vec(),
    ).body(body);
    resp.build()
}

/// Completes a deletion: a 200 response with a JSON confirmation when
/// the file existed, a `FileNotFound` error when it did not.
pub fn file_delete_response(name: &[u8], existed: bool) -> (r: Result<Vec<u8>, ServerError>)
    ensures
        existed ==> (r matches Ok(b) && b@ == response::spec_wire(
            model_plain(200, ("application/json").spec_bytes(), spec_delete_json(name@)),
        )),
        !existed ==> (r matches Err(e) && (e matches ServerError::FileNotFound(d) && d@ == (
        "File not found: ").spec_bytes() + name@)),
{
    if !existed {
        let mut d: Vec<u8> = Vec::new();
        ascii::append_bytes(&mut d, "File not found: ".as_bytes());
        ascii::append_bytes(&mut d, name);
        return Err(ServerError::FileNotFound(d));
    }
    let mut body: Vec<u8> = Vec::new();
    ascii::append_bytes(&mut body, "{\"filename\":\"".as_bytes());
    let en = json_escape(name);
    ascii::append_bytes(&mut body, en.as_slice());
    ascii::append_bytes(&mut body, "\",\"message\":\"File deleted successfully\"}".as_bytes());
    assert(body@ =~= spec_delete_json(name@));
    let resp = HttpResponse::ok().header(
        "Content-Type".as_bytes_vec(),
        "application/json".as_bytes_vec(),
    ).body(body);
    Ok(resp.build())
}

} // verus!
