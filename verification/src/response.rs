//! The response builder: status, headers and body accumulate through
//! chained calls, and `build` serializes them to exact wire bytes,
//! always recomputing `Content-Length` from the final body.

use vstd::prelude::*;
use vstd::string::*;
use crate::ascii;
use crate::compression;
use crate::compression::Compression;
use crate::error::ServerError;
use crate::headers;
use crate::headers::HeaderMap;

verus! {

/// The abstract state of a response under construction.
pub struct ResponseModel {
    pub status_code: u16,
    pub status_text: Seq<u8>,
    pub headers: Seq<(Seq<u8>, Seq<u8>)>,
    pub body: Seq<u8>,
}

/// The fixed reason phrase of a status code.
pub open spec fn spec_status_text(code: u16) -> Seq<u8> {
    if code == 200 {
        ("OK").spec_bytes()
    } else if code == 201 {
        ("Created").spec_bytes()
    } else if code == 204 {
        ("No Content").spec_bytes()
    } else if code == 400 {
        ("Bad Request").spec_bytes()
    } else if code == 404 {
        ("Not Found").spec_bytes()
    } else if code == 405 {
        ("Method Not Allowed").spec_bytes()
    } else if code == 500 {
        ("Internal Server Error").spec_bytes()
    } else {
        ("Unknown").spec_bytes()
    }
}

/// One header on the wire.
pub open spec fn render_header(p: (Seq<u8>, Seq<u8>)) -> Seq<u8> {
    p.0 + (": ").spec_bytes() + p.1 + ("\r\n").spec_bytes()
}

/// All headers on the wire, in order.
pub open spec fn render_headers(hs: Seq<(Seq<u8>, Seq<u8>)>) -> Seq<u8>
    decreases hs.len(),
{
    if hs.len() == 0 {
        Seq::empty()
    } else {
        render_header(hs[0]) + render_headers(hs.drop_first())
    }
}

proof fn lemma_render_push(hs: Seq<(Seq<u8>, Seq<u8>)>, p: (Seq<u8>, Seq<u8>))
    ensures
        render_headers(hs.push(p)) == render_headers(hs) + render_header(p),
    decreases hs.len(),
{
    if hs.len() == 0 {
        let single = hs.push(p);
        assert(single[0] == p);
        assert(single.drop_first() =~= Seq::<(Seq<u8>, Seq<u8>)>::empty());
        assert(render_headers(single) == render_header(p) + render_headers(single.drop_first()));
        assert(render_headers(single.drop_first()) == Seq::<u8>::empty());
        assert(render_header(p) + Seq::<u8>::empty() =~= Seq::<u8>::empty() + render_header(p));
        assert(render_headers(hs) == Seq::<u8>::empty());
    } else {
        lemma_render_push(hs.drop_first(), p);
        assert(hs.push(p).drop_first() =~= hs.drop_first().push(p));
        assert(hs.push(p)[0] == hs[0]);
        assert(render_header(hs[0]) + (render_headers(hs.drop_first()) + render_header(p)) =~= (
        render_header(hs[0]) + render_headers(hs.drop_first())) + render_header(p));
    }
}

/// The headers that `build` serializes: the accumulated ones, with
/// `Content-Length` always recomputed as the exact byte length of the
/// body — a caller-set value is overwritten, never left stale.
pub open spec fn with_content_length(m: ResponseModel) -> Seq<(Seq<u8>, Seq<u8>)> {
    headers::set_key(m.headers, ("Content-Length").spec_bytes(), ascii::dec_rep(m.body.len()))
}

/// The complete response on the wire: the status line, each header
/// line, a blank line, then the raw body with no trailing terminator.
pub open spec fn spec_wire(m: ResponseModel) -> Seq<u8> {
    ("HTTP/1.1 ").spec_bytes() + ascii::dec_rep(m.status_code as nat) + (" ").spec_bytes()
        + m.status_text + ("\r\n").spec_bytes() + render_headers(with_content_length(m)) + (
    "\r\n").spec_bytes() + m.body
}

/// A response being built: status, headers, body.
#[derive(Debug)]
pub struct HttpResponse {
    status_code: u16,
    status_text: Vec<u8>,
    headers: HeaderMap,
    body: Vec<u8>,
}

impl View for HttpResponse {
    type V = ResponseModel;

    closed spec fn view(&self) -> ResponseModel {
        ResponseModel {
            status_code: self.status_code,
            status_text: self.status_text@,
            headers: self.headers@,
            body: self.body@,
        }
    }
}

impl HttpResponse {
    /// A fresh response with the given status, its fixed reason
    /// phrase, no headers and an empty body.
    pub fn new(status_code: u16) -> (r: HttpResponse)
        ensures
            r@.status_code == status_code,
            r@.status_text == spec_status_text(status_code),
            r@.headers == Seq::<(Seq<u8>, Seq<u8>)>::empty(),
            r@.body == Seq::<u8>::empty(),
    {
        let status_text: Vec<u8> = if status_code == 200 {
            "OK".as_bytes_vec()
        } else if status_code == 201 {
            "Created".as_bytes_vec()
        } else if status_code == 204 {
            "No Content".as_bytes_vec()
        } else if status_code == 400 {
            "Bad Request".as_bytes_vec()
        } else if status_code == 404 {
            "Not Found".as_bytes_vec()
        } else if status_code == 405 {
            "Method Not Allowed".as_bytes_vec()
        } else if status_code == 500 {
            "Internal Server Error".as_bytes_vec()
        } else {
            "Unknown".as_bytes_vec()
        };
        HttpResponse { status_code, status_text, headers: HeaderMap::new(), body: Vec::new() }
    }

    /// Sets a header, overwriting one of the same name.
    pub fn header(self, key: Vec<u8>, value: Vec<u8>) -> (r: HttpResponse)
        ensures
            r@.status_code == self@.status_code,
            r@.status_text == self@.status_text,
            r@.headers == headers::set_key(self@.headers, key@, value@),
            r@.body == self@.body,
    {
        let mut s = self;
        s.headers.insert(key, value);
        s
    }

    /// Replaces the body.
    pub fn body(self, body: Vec<u8>) -> (r: HttpResponse)
        ensures
            r@.status_code == self@.status_code,
            r@.status_text == self@.status_text,
            r@.headers == self@.headers,
            r@.body == body@,
    {
        let mut s = self;
        s.body = body;
        s
    }

    /// Sets a plain-text body.
    pub fn text(self, text: Vec<u8>) -> (r: HttpResponse)
        ensures
            r@.status_code == self@.status_code,
            r@.status_text == self@.status_text,
            r@.headers == headers::set_key(
                self@.headers,
                ("Content-Type").spec_bytes(),
                ("text/plain").spec_bytes(),
            ),
            r@.body == text@,
    {
        self.header("Content-Type".as_bytes_vec(), "text/plain".as_bytes_vec()).body(text)
    }

    /// Sets an HTML body.
    pub fn html(self, html: Vec<u8>) -> (r: HttpResponse)
        ensures
            r@.status_code == self@.status_code,
            r@.status_text == self@.status_text,
            r@.headers == headers::set_key(
                self@.headers,
                ("Content-Type").spec_bytes(),
                ("text/html").spec_bytes(),
            ),
            r@.body == html@,
    {
        self.header("Content-Type".as_bytes_vec(), "text/html".as_bytes_vec()).body(html)
    }

    /// Compresses the body under the given encoding and records it in
    /// `Content-Encoding`; it never fails. An empty body is left
    /// untouched, and so is the whole response under the identity
    /// encoding — identity emits no `Content-Encoding` header. A
    /// compressed body always decodes back to the original.
    pub fn compress(self, c: Compression) -> (r: Result<HttpResponse, ServerError>)
        ensures
            (self@.body.len() == 0 || c is Identity) ==> (r matches Ok(resp) && resp@ == self@),
            (self@.body.len() > 0 && !(c is Identity)) ==> (r matches Ok(resp) && ({
                &&& resp@.status_code == self@.status_code
                &&& resp@.status_text == self@.status_text
                &&& resp@.body == compression::spec_compressed(c, self@.body)
                &&& compression::spec_decompressed(c, resp@.body) == Some(self@.body)
                &&& resp@.headers == headers::set_key(
                    self@.headers,
                    ("Content-Encoding").spec_bytes(),
                    compression::spec_name(c),
                )
            })),
    {
        if self.body.len() == 0 {
            return Ok(self);
        }
        if c == Compression::Identity {
            return Ok(self);
        }
        let compressed = match c.compress(self.body.as_slice()) {
            Ok(v) => v,
            Err(e) => {
                return Err(e);
            },
        };
        let mut s = self;
        s.body = compressed;
        s.headers.insert("Content-Encoding".as_bytes_vec(), c.name().as_bytes_vec());
        Ok(s)
    }

    /// Serializes the response to its exact wire bytes.
    pub fn build(self) -> (r: Vec<u8>)
        ensures
            r@ == spec_wire(self@),
    {
        let ghost m = self@;
        let mut hm = self.headers;
        let len_digits = ascii::dec_u64(self.body.len() as u64);
        hm.insert("Content-Length".as_bytes_vec(), len_digits);
        assert(hm@ == with_content_length(m));
        let mut out: Vec<u8> = Vec::new();
        ascii::append_bytes(&mut out, "HTTP/1.1 ".as_bytes());
        let code_digits = ascii::dec_u64(self.status_code as u64);
        ascii::append_bytes(&mut out, code_digits.as_slice());
        ascii::append_bytes(&mut out, " ".as_bytes());
        ascii::append_bytes(&mut out, self.status_text.as_slice());
        ascii::append_bytes(&mut out, "\r\n".as_bytes());
        let ghost head = out@;
        let n = hm.len();
        let mut i: usize = 0;
        while i < n
            invariant
                n == hm@.len(),
                i <= n,
                out@ == head + render_headers(hm@.take(i as int)),
            decreases n - i,
        {
            let (name, value) = hm.entry_at(i);
            ascii::append_bytes(&mut out, name.as_slice());
            ascii::append_bytes(&mut out, ": ".as_bytes());
            ascii::append_bytes(&mut out, value.as_slice());
            ascii::append_bytes(&mut out, "\r\n".as_bytes());
            proof {
                lemma_render_push(hm@.take(i as int), hm@[i as int]);
                assert(hm@.take(i as int).push(hm@[i as int]) =~= hm@.take(i as int + 1));
                assert(out@ =~= head + render_headers(hm@.take(i as int + 1)));
            }
            i = i + 1;
        }
        assert(hm@.take(n as int) =~= hm@);
        ascii::append_bytes(&mut out, "\r\n".as_bytes());
        ascii::append_bytes(&mut out, self.body.as_slice());
        assert(out@ =~= spec_wire(m));
        out
    }

    pub fn ok() -> (r: HttpResponse)
        ensures
            r@.status_code == 200,
            r@.status_text == spec_status_text(200),
            r@.headers == Seq::<(Seq<u8>, Seq<u8>)>::empty(),
            r@.body == Seq::<u8>::empty(),
    {
        Self::new(200)
    }

    pub fn created() -> (r: HttpResponse)
        ensures
            r@.status_code == 201,
            r@.status_text == spec_status_text(201),
            r@.headers == Seq::<(Seq<u8>, Seq<u8>)>::empty(),
            r@.body == Seq::<u8>::empty(),
    {
        Self::new(201)
    }

    pub fn no_content() -> (r: HttpResponse)
        ensures
            r@.status_code == 204,
            r@.status_text == spec_status_text(204),
            r@.headers == Seq::<(Seq<u8>, Seq<u8>)>::empty(),
            r@.body == Seq::<u8>::empty(),
    {
        Self::new(204)
    }

    pub fn bad_request() -> (r: HttpResponse)
        ensures
            r@.status_code == 400,
            r@.status_text == spec_status_text(400),
            r@.headers == Seq::<(Seq<u8>, Seq<u8>)>::empty(),
            r@.body == Seq::<u8>::empty(),
    {
        Self::new(400)
    }

    pub fn not_found() -> (r: HttpResponse)
        ensures
            r@.status_code == 404,
            r@.status_text == spec_status_text(404),
            r@.headers == headers::set_key(
                Seq::<(Seq<u8>, Seq<u8>)>::empty(),
                ("Content-Type").spec_bytes(),
                ("text/plain").spec_bytes(),
            ),
            r@.body == ("404 - Not Found").spec_bytes(),
    {
        Self::new(404).text("404 - Not Found".as_bytes_vec())
    }

    pub fn method_not_allowed() -> (r: HttpResponse)
        ensures
            r@.status_code == 405,
            r@.status_text == spec_status_text(405),
            r@.headers == headers::set_key(
                Seq::<(Seq<u8>, Seq<u8>)>::empty(),
                ("Content-Type").spec_bytes(),
                ("text/plain").spec_bytes(),
            ),
            r@.body == ("405 - Method Not Allowed").spec_bytes(),
    {
        Self::new(405).text("405 - Method Not Allowed".as_bytes_vec())
    }

    pub fn internal_error() -> (r: HttpResponse)
        ensures
            r@.status_code == 500,
            r@.status_text == spec_status_text(500),
            r@.headers == headers::set_key(
                Seq::<(Seq<u8>, Seq<u8>)>::empty(),
                ("Content-Type").spec_bytes(),
                ("text/plain").spec_bytes(),
            ),
            r@.body == ("500 - Internal Server Error").spec_bytes(),
    {
        Self::new(500).text("500 - Internal Server Error".as_bytes_vec())
    }
}

} // verus!
