//! The request parser: turns the raw bytes of one HTTP/1.1 exchange
//! into a structured request. The wire format is specified first as
//! spec functions over byte sequences; the executable parser is proved
//! to follow them exactly.

use vstd::prelude::*;
use vstd::string::*;
use crate::ascii;
use crate::error::ServerError;
use crate::headers;
use crate::headers::HeaderMap;

verus! {

/// The methods the server recognizes.
#[derive(Debug, Clone, Copy, PartialEq, Eq, Structural)]
pub enum HttpMethod {
    GET,
    POST,
    PUT,
    DELETE,
    PATCH,
    HEAD,
    OPTIONS,
}

/// The method a token names, compared case-insensitively.
pub open spec fn spec_method_of(tok: Seq<u8>) -> Option<HttpMethod> {
    let u = ascii::upper_seq(tok);
    if u == ("GET").spec_bytes() {
        Some(HttpMethod::GET)
    } else if u == ("POST").spec_bytes() {
        Some(HttpMethod::POST)
    } else if u == ("PUT").spec_bytes() {
        Some(HttpMethod::PUT)
    } else if u == ("DELETE").spec_bytes() {
        Some(HttpMethod::DELETE)
    } else if u == ("PATCH").spec_bytes() {
        Some(HttpMethod::PATCH)
    } else if u == ("HEAD").spec_bytes() {
        Some(HttpMethod::HEAD)
    } else if u == ("OPTIONS").spec_bytes() {
        Some(HttpMethod::OPTIONS)
    } else {
        None
    }
}

/// The canonical spelling of a method.
pub open spec fn spec_method_name(m: HttpMethod) -> Seq<u8> {
    match m {
        HttpMethod::GET => ("GET").spec_bytes(),
        HttpMethod::POST => ("POST").spec_bytes(),
        HttpMethod::PUT => ("PUT").spec_bytes(),
        HttpMethod::DELETE => ("DELETE").spec_bytes(),
        HttpMethod::PATCH => ("PATCH").spec_bytes(),
        HttpMethod::HEAD => ("HEAD").spec_bytes(),
        HttpMethod::OPTIONS => ("OPTIONS").spec_bytes(),
    }
}

impl HttpMethod {
    /// Parses a method token, case-insensitively; an unrecognized
    /// token is an `InvalidMethod` error carrying the token itself.
    pub fn from_str(s: &[u8]) -> (r: Result<HttpMethod, ServerError>)
        ensures
            match spec_method_of(s@) {
                Some(m) => r matches Ok(mm) && mm == m,
                None => r matches Err(e) && (e matches ServerError::InvalidMethod(d) && d@ == s@),
            },
    {
        let u = ascii::upper_vec(s);
        if ascii::bytes_eq(u.as_slice(), "GET".as_bytes()) {
            Ok(HttpMethod::GET)
        } else if ascii::bytes_eq(u.as_slice(), "POST".as_bytes()) {
            Ok(HttpMethod::POST)
        } else if ascii::bytes_eq(u.as_slice(), "PUT".as_bytes()) {
            Ok(HttpMethod::PUT)
        } else if ascii::bytes_eq(u.as_slice(), "DELETE".as_bytes()) {
            Ok(HttpMethod::DELETE)
        } else if ascii::bytes_eq(u.as_slice(), "PATCH".as_bytes()) {
            Ok(HttpMethod::PATCH)
        } else if ascii::bytes_eq(u.as_slice(), "HEAD".as_bytes()) {
            Ok(HttpMethod::HEAD)
        } else if ascii::bytes_eq(u.as_slice(), "OPTIONS".as_bytes()) {
            Ok(HttpMethod::OPTIONS)
        } else {
            Err(ServerError::InvalidMethod(vstd::slice::slice_to_vec(s)))
        }
    }

    /// The canonical spelling of this method.
    pub fn as_str(&self) -> (r: &'static str)
        ensures
            r.spec_bytes() == spec_method_name(*self),
    {
        match self {
            HttpMethod::GET => "GET",
            HttpMethod::POST => "POST",
            HttpMethod::PUT => "PUT",
            HttpMethod::DELETE => "DELETE",
            HttpMethod::PATCH => "PATCH",
            HttpMethod::HEAD => "HEAD",
            HttpMethod::OPTIONS => "OPTIONS",
        }
    }
}

/// Number of bytes from position `i` up to the next LF (or the end).
pub open spec fn spec_line_len(s: Seq<u8>, i: int) -> nat
    decreases s.len() - i,
    when 0 <= i <= s.len()
{
    if i == s.len() {
        0
    } else if s[i] == 10 {
        0
    } else {
        (1 + spec_line_len(s, i + 1)) as nat
    }
}

pub proof fn lemma_line_len_bound(s: Seq<u8>, i: int)
    requires
        0 <= i <= s.len(),
    ensures
        i + spec_line_len(s, i) <= s.len(),
    decreases s.len() - i,
{
    if i < s.len() && s[i] != 10 {
        lemma_line_len_bound(s, i + 1);
    }
}

proof fn lemma_line_len_char(s: Seq<u8>, i: int, e: int)
    requires
        0 <= i <= e <= s.len(),
        forall|k: int| i <= k < e ==> s[k] != 10,
        e == s.len() || s[e] == 10,
    ensures
        spec_line_len(s, i) == e - i,
    decreases e - i,
{
    if i < e {
        lemma_line_len_char(s, i + 1, e);
    }
}

/// First position at or after `i` holding a byte that is not ASCII
/// whitespace.
pub open spec fn skip_ws_from(s: Seq<u8>, i: int) -> int
    decreases s.len() - i,
    when 0 <= i <= s.len()
{
    if i == s.len() {
        i
    } else if ascii::is_ws(s[i]) {
        skip_ws_from(s, i + 1)
    } else {
        i
    }
}

/// First position at or after `i` holding ASCII whitespace.
pub open spec fn skip_tok_from(s: Seq<u8>, i: int) -> int
    decreases s.len() - i,
    when 0 <= i <= s.len()
{
    if i == s.len() {
        i
    } else if !ascii::is_ws(s[i]) {
        skip_tok_from(s, i + 1)
    } else {
        i
    }
}

proof fn lemma_skip_ws_char(s: Seq<u8>, i: int, j: int)
    requires
        0 <= i <= j <= s.len(),
        forall|k: int| i <= k < j ==> ascii::is_ws(s[k]),
        j == s.len() || !ascii::is_ws(s[j]),
    ensures
        skip_ws_from(s, i) == j,
    decreases j - i,
{
    if i < j {
        lemma_skip_ws_char(s, i + 1, j);
    }
}

proof fn lemma_skip_tok_char(s: Seq<u8>, i: int, j: int)
    requires
        0 <= i <= j <= s.len(),
        forall|k: int| i <= k < j ==> !ascii::is_ws(s[k]),
        j == s.len() || ascii::is_ws(s[j]),
    ensures
        skip_tok_from(s, i) == j,
    decreases j - i,
{
    if i < j {
        lemma_skip_tok_char(s, i + 1, j);
    }
}

/// First position at or after `i` holding a colon.
pub open spec fn skip_to_colon(s: Seq<u8>, i: int) -> int
    decreases s.len() - i,
    when 0 <= i <= s.len()
{
    if i == s.len() {
        i
    } else if s[i] == 58 {
        i
    } else {
        skip_to_colon(s, i + 1)
    }
}

proof fn lemma_skip_colon_char(s: Seq<u8>, i: int, j: int)
    requires
        0 <= i <= j <= s.len(),
        forall|k: int| i <= k < j ==> s[k] != 58,
        j == s.len() || s[j] == 58,
    ensures
        skip_to_colon(s, i) == j,
    decreases j - i,
{
    if i < j {
        lemma_skip_colon_char(s, i + 1, j);
    }
}

/// One header line with its trailing CR removed, as `str::lines`
/// yields it.
pub open spec fn strip_cr(l: Seq<u8>) -> Seq<u8> {
    if l.len() > 0 && l.last() == 13 {
        l.drop_last()
    } else {
        l
    }
}

/// The result of scanning the header section: the accumulated header
/// map, the value the `Content-Length` header supplied (zero when
/// missing or unparsable), and the position where the body starts.
pub struct HeadScan {
    pub headers: Seq<(Seq<u8>, Seq<u8>)>,
    pub content_length: nat,
    pub body_start: int,
}

/// Scans header lines from position `i` until an empty line or the end
/// of input. A line without a colon is skipped; otherwise the name
/// (trimmed, lower-cased) is bound to the value (trimmed), the last
/// occurrence winning. A `content-length` name updates the parsed
/// length, an unparsable value degrading to zero.
pub open spec fn scan_headers(s: Seq<u8>, i: int, acc: Seq<(Seq<u8>, Seq<u8>)>, cl: nat) -> HeadScan
    decreases s.len() - i,
    when 0 <= i <= s.len()
{
    if i == s.len() {
        HeadScan { headers: acc, content_length: cl, body_start: i }
    } else {
        let e = i + spec_line_len(s, i);
        let line = strip_cr(s.subrange(i, e));
        let next = if e < s.len() {
            e + 1
        } else {
            e
        };
        if line.len() == 0 {
            HeadScan { headers: acc, content_length: cl, body_start: next }
        } else {
            let ci = skip_to_colon(line, 0);
            if ci == line.len() {
                proof {
                    lemma_line_len_bound(s, i);
                }
                scan_headers(s, next, acc, cl)
            } else {
                let key = ascii::lower_seq(ascii::trim_of(line.take(ci)));
                let val = ascii::trim_of(line.skip(ci + 1));
                let cl2 = if key == ("content-length").spec_bytes() {
                    match ascii::parse_content_length(val) {
                        Some(n) => n,
                        None => 0,
                    }
                } else {
                    cl
                };
                proof {
                    lemma_line_len_bound(s, i);
                }
                scan_headers(s, next, headers::set_key(acc, key, val), cl2)
            }
        }
    }
}

/// The structured request a byte sequence parses to.
pub struct RequestModel {
    pub method: HttpMethod,
    pub path: Seq<u8>,
    pub version: Seq<u8>,
    pub headers: Seq<(Seq<u8>, Seq<u8>)>,
    pub body: Seq<u8>,
}

/// The ways parsing can fail.
pub enum ParseFailure {
    /// The request line has fewer than three tokens.
    BadRequestLine,
    /// The method token (carried here) is not a recognized method.
    BadMethod(Seq<u8>),
    /// The input ends before `Content-Length` bytes of body.
    ShortBody,
}

/// What one complete HTTP/1.1 exchange's bytes parse to: the first
/// line supplies method, path and version as its first three
/// whitespace-separated tokens; header lines follow until an empty
/// line; the body is exactly the advertised `Content-Length` bytes.
pub open spec fn spec_parse(input: Seq<u8>) -> Result<RequestModel, ParseFailure> {
    let ll = spec_line_len(input, 0) as int;
    let line = input.take(ll);
    let a0 = skip_ws_from(line, 0);
    let a1 = skip_tok_from(line, a0);
    let b0 = skip_ws_from(line, a1);
    let b1 = skip_tok_from(line, b0);
    let c0 = skip_ws_from(line, b1);
    let c1 = skip_tok_from(line, c0);
    if c0 >= line.len() {
        Err(ParseFailure::BadRequestLine)
    } else {
        let m = line.subrange(a0, a1);
        match spec_method_of(m) {
            None => Err(ParseFailure::BadMethod(m)),
            Some(meth) => {
                let hstart = if ll < input.len() {
                    ll + 1
                } else {
                    ll
                };
                let hs = scan_headers(input, hstart, Seq::empty(), 0);
                if input.len() - hs.body_start < hs.content_length {
                    Err(ParseFailure::ShortBody)
                } else {
                    Ok(
                        RequestModel {
                            method: meth,
                            path: line.subrange(b0, b1),
                            version: line.subrange(c0, c1),
                            headers: hs.headers,
                            body: input.subrange(
                                hs.body_start,
                                hs.body_start + hs.content_length,
                            ),
                        },
                    )
                }
            },
        }
    }
}

/// A parsed request. The body length always equals the
/// `Content-Length` the head advertised (zero when absent).
#[derive(Debug)]
pub struct HttpRequest {
    pub method: HttpMethod,
    pub path: Vec<u8>,
    pub version: Vec<u8>,
    pub headers: HeaderMap,
    pub body: Vec<u8>,
}

impl View for HttpRequest {
    type V = RequestModel;

    open spec fn view(&self) -> RequestModel {
        RequestModel {
            method: self.method,
            path: self.path@,
            version: self.version@,
            headers: self.headers@,
            body: self.body@,
        }
    }
}

impl HttpRequest {
    /// Parses the bytes of one complete exchange, exactly as
    /// `spec_parse` describes; each failure is mapped to its error
    /// kind.
    pub fn parse(input: &[u8]) -> (r: Result<HttpRequest, ServerError>)
        ensures
            match spec_parse(input@) {
                Ok(rv) => r matches Ok(req) && req@ == rv,
                Err(pf) => r matches Err(e) && match pf {
                    ParseFailure::BadRequestLine => e matches ServerError::InvalidRequest(d) && d@
                        == ("Invalid request line format").spec_bytes(),
                    ParseFailure::BadMethod(t) => e matches ServerError::InvalidMethod(d) && d@
                        == t,
                    ParseFailure::ShortBody => e matches ServerError::InvalidRequest(d) && d@ == (
                    "Failed to read request body: unexpected end of stream").spec_bytes(),
                },
            },
    {
        let n = input.len();
        let ll = scan_line_end(input, 0);
        let line = vstd::slice::slice_subrange(input, 0, ll);
        proof {
            assert(line@ =~= input@.take(ll as int));
        }
        let a0 = scan_skip_ws(line, 0);
        let a1 = scan_skip_tok(line, a0);
        let b0 = scan_skip_ws(line, a1);
        let b1 = scan_skip_tok(line, b0);
        let c0 = scan_skip_ws(line, b1);
        let c1 = scan_skip_tok(line, c0);
        if c0 >= line.len() {
            return Err(
                ServerError::InvalidRequest("Invalid request line format".as_bytes_vec()),
            );
        }
        let mtok = vstd::slice::slice_subrange(line, a0, a1);
        let method = match HttpMethod::from_str(mtok) {
            Ok(m) => m,
            Err(e) => {
                return Err(e);
            },
        };
        let hstart: usize = if ll < n {
            ll + 1
        } else {
            ll
        };
        let (hm, cl, bstart, _complete) = read_headers(input, hstart);
        if n - bstart < cl {
            return Err(
                ServerError::InvalidRequest(
                    "Failed to read request body: unexpected end of stream".as_bytes_vec(),
                ),
            );
        }
        let body = vstd::slice::slice_to_vec(
            vstd::slice::slice_subrange(input, bstart, bstart + cl),
        );
        let path = vstd::slice::slice_to_vec(vstd::slice::slice_subrange(line, b0, b1));
        let version = vstd::slice::slice_to_vec(vstd::slice::slice_subrange(line, c0, c1));
        let req = HttpRequest { method, path, version, headers: hm, body };
        Ok(req)
    }
}

/// Whether an empty line (the end of the head) occurs at or after `i`
/// before the input runs out.
pub open spec fn head_ends(s: Seq<u8>, i: int) -> bool
    decreases s.len() - i,
    when 0 <= i <= s.len()
{
    if i == s.len() {
        false
    } else {
        let e = i + spec_line_len(s, i);
        let line = strip_cr(s.subrange(i, e));
        let next = if e < s.len() {
            e + 1
        } else {
            e
        };
        if line.len() == 0 {
            true
        } else {
            proof {
                lemma_line_len_bound(s, i);
            }
            head_ends(s, next)
        }
    }
}

/// Scans the header section starting at `hstart` and returns the
/// header map, the parsed `Content-Length`, the position where the
/// body starts, and whether the head actually ended in an empty line
/// (rather than the input running out).
pub(crate) fn read_headers(input: &[u8], hstart: usize) -> (r: (HeaderMap, usize, usize, bool))
    requires
        hstart <= input@.len(),
    ensures
        ({
            let scan = scan_headers(input@, hstart as int, Seq::empty(), 0);
            &&& r.0@ == scan.headers
            &&& r.1 as nat == scan.content_length
            &&& r.2 as int == scan.body_start
            &&& hstart <= r.2 <= input@.len()
            &&& r.3 == head_ends(input@, hstart as int)
        }),
{
    let n = input.len();
    let mut i: usize = hstart;
    let mut hm = HeaderMap::new();
    let mut cl: usize = 0;
    let mut complete = false;
    let ghost target = scan_headers(input@, hstart as int, Seq::empty(), 0);
    assert(hm@ =~= Seq::<(Seq<u8>, Seq<u8>)>::empty());
    let mut done = false;
    while !done
        invariant
            n == input@.len(),
            hstart <= i <= n,
            !done ==> target == scan_headers(input@, i as int, hm@, cl as nat),
            !done ==> head_ends(input@, hstart as int) == head_ends(input@, i as int),
            !done ==> !complete,
            done ==> target == (HeadScan {
                headers: hm@,
                content_length: cl as nat,
                body_start: i as int,
            }),
            done ==> complete == head_ends(input@, hstart as int),
        decreases n - i + (if done {
            0int
        } else {
            1int
        }),
    {
            if i == n {
                assert(scan_headers(input@, i as int, hm@, cl as nat) == (HeadScan {
                    headers: hm@,
                    content_length: cl as nat,
                    body_start: i as int,
                }));
                assert(!head_ends(input@, i as int));
                done = true;
            } else {
                let e = scan_line_end(input, i);
                let lend: usize = if e > i && input[e - 1] == 13 {
                    e - 1
                } else {
                    e
                };
                let next: usize = if e < n {
                    e + 1
                } else {
                    e
                };
                proof {
                    let line0 = input@.subrange(i as int, e as int);
                    if e > i && input@[e - 1] == 13 {
                        assert(line0.last() == input@[e - 1]);
                        assert(line0.drop_last() =~= input@.subrange(i as int, lend as int));
                    } else {
                        if line0.len() > 0 {
                            assert(line0.last() == input@[e - 1]);
                        }
                        assert(line0 =~= input@.subrange(i as int, lend as int));
                    }
                    assert(strip_cr(line0) == input@.subrange(i as int, lend as int));
                }
                if lend == i {
                    assert(strip_cr(input@.subrange(i as int, e as int)).len() == 0);
                    assert(scan_headers(input@, i as int, hm@, cl as nat) == (HeadScan {
                        headers: hm@,
                        content_length: cl as nat,
                        body_start: next as int,
                    }));
                    assert(head_ends(input@, i as int));
                    i = next;
                    complete = true;
                    done = true;
                } else {
                    let lslice = vstd::slice::slice_subrange(input, i, lend);
                    proof {
                        assert(lslice@ =~= input@.subrange(i as int, lend as int));
                    }
                    let ghost sline = strip_cr(input@.subrange(i as int, e as int));
                    assert(sline == lslice@);
                    assert(head_ends(input@, i as int) == head_ends(input@, next as int));
                    let ci = scan_colon(lslice);
                    if ci == lslice.len() {
                        assert(scan_headers(input@, i as int, hm@, cl as nat) == scan_headers(
                            input@,
                            next as int,
                            hm@,
                            cl as nat,
                        ));
                        i = next;
                    } else {
                        let keyraw = vstd::slice::slice_subrange(lslice, 0, ci);
                        let key0 = ascii::trim(keyraw);
                        let key = ascii::lower_vec(key0.as_slice());
                        let valraw = vstd::slice::slice_subrange(lslice, ci + 1, lslice.len());
                        let val = ascii::trim(valraw);
                        proof {
                            assert(keyraw@ =~= sline.take(ci as int));
                            assert(valraw@ =~= sline.skip(ci as int + 1));
                        }
                        let ghost skey = ascii::lower_seq(ascii::trim_of(sline.take(ci as int)));
                        let ghost sval = ascii::trim_of(sline.skip(ci as int + 1));
                        assert(key@ == skey && val@ == sval);
                        let ghost oldhm = hm@;
                        let ghost oldi = i as int;
                        let ghost oldcl = cl as nat;
                        if ascii::bytes_eq(key.as_slice(), "content-length".as_bytes()) {
                            cl = match ascii::parse_usize(val.as_slice()) {
                                Some(v) => v,
                                None => 0,
                            };
                        }
                        hm.insert(key, val);
                        assert(hm@ == headers::set_key(oldhm, skey, sval));
                        assert(scan_headers(input@, oldi, oldhm, oldcl) == scan_headers(
                            input@,
                            next as int,
                            hm@,
                            cl as nat,
                        ));
                        i = next;
                    }
                }
            }
    }
    (hm, cl, i, complete)
}

/// Bounds of the header scan: the body never starts before the scan
/// began nor after the input ends.
pub proof fn lemma_scan_headers_bounds(s: Seq<u8>, i: int, acc: Seq<(Seq<u8>, Seq<u8>)>, cl: nat)
    requires
        0 <= i <= s.len(),
    ensures
        i <= scan_headers(s, i, acc, cl).body_start <= s.len(),
    decreases s.len() - i,
{
    if i == s.len() {
    } else {
        lemma_line_len_bound(s, i);
        let e = i + spec_line_len(s, i);
        let line = strip_cr(s.subrange(i, e));
        let next = if e < s.len() {
            e + 1
        } else {
            e
        };
        if line.len() == 0 {
        } else {
            let ci = skip_to_colon(line, 0);
            if ci == line.len() {
                lemma_scan_headers_bounds(s, next, acc, cl);
            } else {
                let key = ascii::lower_seq(ascii::trim_of(line.take(ci)));
                let val = ascii::trim_of(line.skip(ci + 1));
                let cl2 = if key == ("content-length").spec_bytes() {
                    match ascii::parse_content_length(val) {
                        Some(n) => n,
                        None => 0,
                    }
                } else {
                    cl
                };
                lemma_scan_headers_bounds(s, next, headers::set_key(acc, key, val), cl2);
            }
        }
    }
}

/// For every input whose request line holds at least three
/// whitespace-separated tokens, whose first token names a recognized
/// method, and whose body bytes are all present, parsing succeeds and
/// reproduces method, path and version exactly as those three tokens.
pub proof fn lemma_request_line_roundtrip(input: Seq<u8>)
    requires
        ({
            let line = input.take(spec_line_len(input, 0) as int);
            let a0 = skip_ws_from(line, 0);
            let a1 = skip_tok_from(line, a0);
            let b0 = skip_ws_from(line, a1);
            let b1 = skip_tok_from(line, b0);
            let c0 = skip_ws_from(line, b1);
            &&& c0 < line.len()
            &&& spec_method_of(line.subrange(a0, a1)) is Some
        }),
        ({
            let ll = spec_line_len(input, 0) as int;
            let hstart = if ll < input.len() {
                ll + 1
            } else {
                ll
            };
            let hs = scan_headers(input, hstart, Seq::empty(), 0);
            input.len() - hs.body_start >= hs.content_length
        }),
    ensures
        ({
            let line = input.take(spec_line_len(input, 0) as int);
            let a0 = skip_ws_from(line, 0);
            let a1 = skip_tok_from(line, a0);
            let b0 = skip_ws_from(line, a1);
            let b1 = skip_tok_from(line, b0);
            let c0 = skip_ws_from(line, b1);
            let c1 = skip_tok_from(line, c0);
            &&& spec_parse(input) is Ok
            &&& spec_parse(input)->Ok_0.method == spec_method_of(line.subrange(a0, a1))->Some_0
            &&& spec_parse(input)->Ok_0.path == line.subrange(b0, b1)
            &&& spec_parse(input)->Ok_0.version == line.subrange(c0, c1)
        }),
{
}

/// A malformed `Content-Length` is never a parse failure: whenever
/// the request line is well-formed and the header scan supplies a
/// zero length — which is what any absent or unparsable value
/// degrades to — parsing succeeds with an empty body.
pub proof fn lemma_zero_length_body_always_parses(input: Seq<u8>)
    requires
        ({
            let line = input.take(spec_line_len(input, 0) as int);
            let a0 = skip_ws_from(line, 0);
            let a1 = skip_tok_from(line, a0);
            let b0 = skip_ws_from(line, a1);
            let b1 = skip_tok_from(line, b0);
            let c0 = skip_ws_from(line, b1);
            &&& c0 < line.len()
            &&& spec_method_of(line.subrange(a0, a1)) is Some
        }),
        ({
            let ll = spec_line_len(input, 0) as int;
            let hstart = if ll < input.len() {
                ll + 1
            } else {
                ll
            };
            scan_headers(input, hstart, Seq::empty(), 0).content_length == 0
        }),
    ensures
        spec_parse(input) is Ok,
        spec_parse(input)->Ok_0.body.len() == 0,
{
    let ll = spec_line_len(input, 0) as int;
    lemma_line_len_bound(input, 0);
    let hstart = if ll < input.len() {
        ll + 1
    } else {
        ll
    };
    lemma_scan_headers_bounds(input, hstart, Seq::empty(), 0);
}

/// For every input that parses, the body holds exactly the number of
/// bytes that the head supplied as `Content-Length` — the value of the
/// last such header, zero when it is absent or unparsable.
pub proof fn lemma_body_is_content_length(input: Seq<u8>)
    ensures
        ({
            let ll = spec_line_len(input, 0) as int;
            let hstart = if ll < input.len() {
                ll + 1
            } else {
                ll
            };
            match spec_parse(input) {
                Ok(rv) => rv.body.len() == scan_headers(
                    input,
                    hstart,
                    Seq::empty(),
                    0,
                ).content_length,
                Err(_) => true,
            }
        }),
{
    let ll = spec_line_len(input, 0) as int;
    lemma_line_len_bound(input, 0);
    let hstart = if ll < input.len() {
        ll + 1
    } else {
        ll
    };
    lemma_scan_headers_bounds(input, hstart, Seq::empty(), 0);
}

/// First position at or after `i` holding a comma.
pub open spec fn skip_to_comma(s: Seq<u8>, i: int) -> int
    decreases s.len() - i,
    when 0 <= i <= s.len()
{
    if i == s.len() {
        i
    } else if s[i] == 44 {
        i
    } else {
        skip_to_comma(s, i + 1)
    }
}

pub proof fn lemma_skip_comma_bound(s: Seq<u8>, i: int)
    requires
        0 <= i <= s.len(),
    ensures
        i <= skip_to_comma(s, i) <= s.len(),
    decreases s.len() - i,
{
    if i < s.len() && s[i] != 44 {
        lemma_skip_comma_bound(s, i + 1);
    }
}

proof fn lemma_skip_comma_char(s: Seq<u8>, i: int, j: int)
    requires
        0 <= i <= j <= s.len(),
        forall|k: int| i <= k < j ==> s[k] != 44,
        j == s.len() || s[j] == 44,
    ensures
        skip_to_comma(s, i) == j,
    decreases j - i,
{
    if i < j {
        lemma_skip_comma_char(s, i + 1, j);
    }
}

/// The comma-separated segments of an `Accept-Encoding` value, each
/// trimmed and lower-cased, in the order the client sent them.
pub open spec fn spec_split_encodings(v: Seq<u8>) -> Seq<Seq<u8>>
    decreases v.len(),
{
    let c = skip_to_comma(v, 0);
    if c == v.len() {
        seq![ascii::lower_seq(ascii::trim_of(v))]
    } else {
        proof {
            lemma_skip_comma_bound(v, 0);
        }
        seq![ascii::lower_seq(ascii::trim_of(v.take(c)))] + spec_split_encodings(v.skip(c + 1))
    }
}

/// The encoding tokens a request advertises: the split of its
/// `accept-encoding` header, or nothing when the header is absent.
pub open spec fn spec_encodings_of(hs: Seq<(Seq<u8>, Seq<u8>)>) -> Seq<Seq<u8>> {
    match headers::lookup(hs, ("accept-encoding").spec_bytes()) {
        Some(v) => spec_split_encodings(v),
        None => Seq::empty(),
    }
}

#[verifier::external_type_specification]
#[verifier::external_body]
pub struct ExFromUtf8Error(std::string::FromUtf8Error);

/// Relies on `String::from_utf8`: it succeeds exactly on valid UTF-8
/// input, and the resulting string holds those very bytes.
#[verifier::external_body]
fn string_from_utf8(v: Vec<u8>) -> (r: Result<String, std::string::FromUtf8Error>)
    ensures
        r is Ok <==> vstd::utf8::valid_utf8(v@),
        r matches Ok(s) ==> vstd::utf8::encode_utf8(s@) == v@,
{
    String::from_utf8(v)
}

fn scan_comma(s: &[u8]) -> (r: usize)
    ensures
        0 <= r <= s@.len(),
        r == skip_to_comma(s@, 0),
{
    let n = s.len();
    let mut j: usize = 0;
    while j < n && s[j] != 44
        invariant
            j <= n == s@.len(),
            forall|k: int| 0 <= k < j ==> s@[k] != 44,
        decreases n - j,
    {
        j = j + 1;
    }
    proof {
        lemma_skip_comma_char(s@, 0, j as int);
    }
    j
}

impl HttpRequest {
    /// The value of a header, looked up by its lower-cased name.
    pub fn get_header<'a>(&'a self, key: &[u8]) -> (r: Option<&'a Vec<u8>>)
        ensures
            match r {
                Some(v) => headers::lookup(self@.headers, ascii::lower_seq(key@)) == Some(v@),
                None => headers::lookup(self@.headers, ascii::lower_seq(key@)) is None,
            },
    {
        let k = ascii::lower_vec(key);
        self.headers.get(k.as_slice())
    }

    /// The encodings the client advertised in `Accept-Encoding`, in
    /// order, each trimmed and lower-cased; empty when the header is
    /// absent.
    pub fn get_accepted_encodings(&self) -> (r: Vec<Vec<u8>>)
        ensures
            ascii::views_of(r@) == spec_encodings_of(self@.headers),
    {
        let hv = match self.headers.get("accept-encoding".as_bytes()) {
            Some(v) => v,
            None => {
                let r: Vec<Vec<u8>> = Vec::new();
                assert(ascii::views_of(r@) =~= spec_encodings_of(self@.headers));
                return r;
            },
        };
        let s = hv.as_slice();
        let ghost v = s@;
        let n = s.len();
        let mut r: Vec<Vec<u8>> = Vec::new();
        let mut i: usize = 0;
        let mut done = false;
        assert(v.skip(0) =~= v);
        while !done
            invariant
                n == v.len(),
                s@ == v,
                i <= n,
                !done ==> spec_split_encodings(v) == ascii::views_of(r@) + spec_split_encodings(
                    v.skip(i as int),
                ),
                done ==> ascii::views_of(r@) == spec_split_encodings(v),
            decreases n - i + (if done {
                0int
            } else {
                1int
            }),
        {
            let suffix = vstd::slice::slice_subrange(s, i, n);
            proof {
                assert(suffix@ =~= v.skip(i as int));
            }
            let k = scan_comma(suffix);
            let seg0 = ascii::trim(vstd::slice::slice_subrange(suffix, 0, k));
            let seg = ascii::lower_vec(seg0.as_slice());
            let ghost oldviews = ascii::views_of(r@);
            r.push(seg);
            assert(ascii::views_of(r@) =~= oldviews.push(seg@));
            if k == suffix.len() {
                assert(suffix@.take(k as int) =~= v.skip(i as int));
                assert(seg@ == ascii::lower_seq(ascii::trim_of(v.skip(i as int))));
                assert(ascii::views_of(r@) =~= spec_split_encodings(v));
                done = true;
            } else {
                proof {
                    assert(suffix@.take(k as int) =~= v.skip(i as int).take(k as int));
                    assert(seg@ == ascii::lower_seq(
                        ascii::trim_of(v.skip(i as int).take(k as int)),
                    ));
                    assert(v.skip(i as int).skip(k as int + 1) =~= v.skip(i as int + k + 1));
                    assert(spec_split_encodings(v.skip(i as int)) == seq![seg@]
                        + spec_split_encodings(v.skip(i as int + k + 1)));
                    assert(ascii::views_of(r@) + spec_split_encodings(v.skip(i as int + k + 1)) =~= (
                    oldviews + spec_split_encodings(v.skip(i as int))));
                }
                i = i + k + 1;
            }
        }
        r
    }

    /// Whether the client's advertised encodings include `enc` or the
    /// wildcard `*`.
    pub fn accepts_encoding(&self, enc: &[u8]) -> (r: bool)
        ensures
            r == exists|i: int|
                0 <= i < spec_encodings_of(self@.headers).len() && (#[trigger] spec_encodings_of(
                    self@.headers,
                )[i] == enc@ || spec_encodings_of(self@.headers)[i] == ("*").spec_bytes()),
    {
        let list = self.get_accepted_encodings();
        let n = list.len();
        let mut i: usize = 0;
        while i < n
            invariant
                n == list@.len(),
                ascii::views_of(list@) == spec_encodings_of(self@.headers),
                i <= n,
                forall|k: int|
                    0 <= k < i ==> !(#[trigger] spec_encodings_of(self@.headers)[k] == enc@
                        || spec_encodings_of(self@.headers)[k] == ("*").spec_bytes()),
            decreases n - i,
        {
            let e = &list[i];
            assert(e@ == spec_encodings_of(self@.headers)[i as int]);
            if ascii::bytes_eq(e.as_slice(), enc) || ascii::bytes_eq(e.as_slice(), "*".as_bytes()) {
                return true;
            }
            i = i + 1;
        }
        false
    }

    /// The body as a string, when it is valid UTF-8; a `ParseError`
    /// otherwise.
    pub fn body_as_string(&self) -> (r: Result<String, ServerError>)
        ensures
            r is Ok <==> vstd::utf8::valid_utf8(self@.body),
            r matches Ok(s) ==> vstd::utf8::encode_utf8(s@) == self@.body,
            r matches Err(e) ==> e matches ServerError::ParseError(d) && d@ == (
            "Invalid UTF-8 in body").spec_bytes(),
    {
        let copy = vstd::slice::slice_to_vec(self.body.as_slice());
        match string_from_utf8(copy) {
            Ok(s) => Ok(s),
            Err(_) => Err(ServerError::ParseError("Invalid UTF-8 in body".as_bytes_vec())),
        }
    }
}

pub(crate) fn scan_line_end(s: &[u8], i: usize) -> (r: usize)
    requires
        i <= s@.len(),
    ensures
        i <= r <= s@.len(),
        r - i == spec_line_len(s@, i as int),
        forall|k: int| i <= k < r ==> s@[k] != 10,
        r == s@.len() || s@[r as int] == 10,
{
    let n = s.len();
    let mut j: usize = i;
    while j < n && s[j] != 10
        invariant
            i <= j <= n == s@.len(),
            forall|k: int| i <= k < j ==> s@[k] != 10,
        decreases n - j,
    {
        j = j + 1;
    }
    proof {
        lemma_line_len_char(s@, i as int, j as int);
    }
    j
}

fn scan_skip_ws(s: &[u8], i: usize) -> (r: usize)
    requires
        i <= s@.len(),
    ensures
        i <= r <= s@.len(),
        r == skip_ws_from(s@, i as int),
        r == s@.len() || !ascii::is_ws(s@[r as int]),
{
    let n = s.len();
    let mut j: usize = i;
    while j < n && ascii::byte_is_ws(s[j])
        invariant
            i <= j <= n == s@.len(),
            forall|k: int| i <= k < j ==> ascii::is_ws(s@[k]),
        decreases n - j,
    {
        j = j + 1;
    }
    proof {
        lemma_skip_ws_char(s@, i as int, j as int);
    }
    j
}

fn scan_skip_tok(s: &[u8], i: usize) -> (r: usize)
    requires
        i <= s@.len(),
    ensures
        i <= r <= s@.len(),
        r == skip_tok_from(s@, i as int),
{
    let n = s.len();
    let mut j: usize = i;
    while j < n && !ascii::byte_is_ws(s[j])
        invariant
            i <= j <= n == s@.len(),
            forall|k: int| i <= k < j ==> !ascii::is_ws(s@[k]),
        decreases n - j,
    {
        j = j + 1;
    }
    proof {
        lemma_skip_tok_char(s@, i as int, j as int);
    }
    j
}

fn scan_colon(s: &[u8]) -> (r: usize)
    ensures
        0 <= r <= s@.len(),
        r == skip_to_colon(s@, 0),
        r == s@.len() || s@[r as int] == 58,
{
    let n = s.len();
    let mut j: usize = 0;
    while j < n && s[j] != 58
        invariant
            j <= n == s@.len(),
            forall|k: int| 0 <= k < j ==> s@[k] != 58,
        decreases n - j,
    {
        j = j + 1;
    }
    proof {
        lemma_skip_colon_char(s@, 0, j as int);
    }
    j
}

} // verus!
