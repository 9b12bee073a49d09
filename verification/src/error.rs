//! Error classification for the server: every failure in the pipeline
//! is one of these kinds, each mapped to an HTTP status code and a
//! plain-text error response.

use vstd::prelude::*;
use vstd::string::*;
use crate::ascii;

verus! {

/// The error kinds of the server. Each carries a descriptive detail as
/// bytes; the full message is the kind's fixed prefix followed by the
/// detail.
#[derive(Debug, PartialEq, Eq)]
pub enum ServerError {
    Io(Vec<u8>),
    InvalidRequest(Vec<u8>),
    InvalidMethod(Vec<u8>),
    FileNotFound(Vec<u8>),
    CompressionError(Vec<u8>),
    ParseError(Vec<u8>),
    ConfigError(Vec<u8>),
    InternalError(Vec<u8>),
}

impl ServerError {
    /// The HTTP status code of this error kind: 404 for a missing
    /// file, 400 for a malformed or invalid request, 500 otherwise.
    pub open spec fn spec_status_code(self) -> u16 {
        match self {
            ServerError::FileNotFound(_) => 404,
            ServerError::InvalidRequest(_) => 400,
            ServerError::InvalidMethod(_) => 400,
            ServerError::ParseError(_) => 400,
            _ => 500,
        }
    }

    /// The descriptive message: a fixed prefix naming the kind,
    /// followed by the detail.
    pub open spec fn spec_message(self) -> Seq<u8> {
        match self {
            ServerError::Io(d) => ("IO error: ").spec_bytes() + d@,
            ServerError::InvalidRequest(d) => ("Invalid HTTP request: ").spec_bytes() + d@,
            ServerError::InvalidMethod(d) => ("Invalid HTTP method: ").spec_bytes() + d@,
            ServerError::FileNotFound(d) => ("File not found: ").spec_bytes() + d@,
            ServerError::CompressionError(d) => ("Compression error: ").spec_bytes() + d@,
            ServerError::ParseError(d) => ("Parse error: ").spec_bytes() + d@,
            ServerError::ConfigError(d) => ("Configuration error: ").spec_bytes() + d@,
            ServerError::InternalError(d) => ("Internal server error: ").spec_bytes() + d@,
        }
    }

    /// The reason phrase used in the error response's status line.
    pub open spec fn spec_status_text(self) -> Seq<u8> {
        if self.spec_status_code() == 400 {
            ("Bad Request").spec_bytes()
        } else if self.spec_status_code() == 404 {
            ("Not Found").spec_bytes()
        } else {
            ("Internal Server Error").spec_bytes()
        }
    }

    /// The complete error response on the wire: a status line, a
    /// `Content-Type` and an exact `Content-Length` header, a blank
    /// line, and the message as the body.
    pub open spec fn spec_response(self) -> Seq<u8> {
        ("HTTP/1.1 ").spec_bytes() + ascii::dec_rep(self.spec_status_code() as nat) + (
        " ").spec_bytes() + self.spec_status_text() + ("\r\nContent-Type: text/plain\r\nContent-Length: ").spec_bytes()
            + ascii::dec_rep(self.spec_message().len()) + ("\r\n\r\n").spec_bytes()
            + self.spec_message()
    }

    pub fn status_code(&self) -> (r: u16)
        ensures
            r == self.spec_status_code(),
    {
        match self {
            ServerError::FileNotFound(_) => 404,
            ServerError::InvalidRequest(_) => 400,
            ServerError::InvalidMethod(_) => 400,
            ServerError::ParseError(_) => 400,
            ServerError::Io(_) => 500,
            ServerError::CompressionError(_) => 500,
            ServerError::ConfigError(_) => 500,
            ServerError::InternalError(_) => 500,
        }
    }

    /// The descriptive message of this error, prefix and detail.
    pub fn message(&self) -> (r: Vec<u8>)
        ensures
            r@ == self.spec_message(),
    {
        let mut v: Vec<u8> = Vec::new();
        match self {
            ServerError::Io(d) => {
                ascii::append_bytes(&mut v, "IO error: ".as_bytes());
                ascii::append_bytes(&mut v, d.as_slice());
            },
            ServerError::InvalidRequest(d) => {
                ascii::append_bytes(&mut v, "Invalid HTTP request: ".as_bytes());
                ascii::append_bytes(&mut v, d.as_slice());
            },
            ServerError::InvalidMethod(d) => {
                ascii::append_bytes(&mut v, "Invalid HTTP method: ".as_bytes());
                ascii::append_bytes(&mut v, d.as_slice());
            },
            ServerError::FileNotFound(d) => {
                ascii::append_bytes(&mut v, "File not found: ".as_bytes());
                ascii::append_bytes(&mut v, d.as_slice());
            },
            ServerError::CompressionError(d) => {
                ascii::append_bytes(&mut v, "Compression error: ".as_bytes());
                ascii::append_bytes(&mut v, d.as_slice());
            },
            ServerError::ParseError(d) => {
                ascii::append_bytes(&mut v, "Parse error: ".as_bytes());
                ascii::append_bytes(&mut v, d.as_slice());
            },
            ServerError::ConfigError(d) => {
                ascii::append_bytes(&mut v, "Configuration error: ".as_bytes());
                ascii::append_bytes(&mut v, d.as_slice());
            },
            ServerError::InternalError(d) => {
                ascii::append_bytes(&mut v, "Internal server error: ".as_bytes());
                ascii::append_bytes(&mut v, d.as_slice());
            },
        }
        assert(v@ =~= self.spec_message());
        v
    }

    /// Serializes this error as a complete, well-formed HTTP response.
    pub fn to_response(&self) -> (r: Vec<u8>)
        ensures
            r@ == self.spec_response(),
    {
        let message = self.message();
        let code = self.status_code();
        let mut v: Vec<u8> = Vec::new();
        ascii::append_bytes(&mut v, "HTTP/1.1 ".as_bytes());
        let code_digits = ascii::dec_u64(code as u64);
        ascii::append_bytes(&mut v, code_digits.as_slice());
        ascii::append_bytes(&mut v, " ".as_bytes());
        if code == 400 {
            ascii::append_bytes(&mut v, "Bad Request".as_bytes());
        } else if code == 404 {
            ascii::append_bytes(&mut v, "Not Found".as_bytes());
        } else {
            ascii::append_bytes(&mut v, "Internal Server Error".as_bytes());
        }
        ascii::append_bytes(&mut v, "\r\nContent-Type: text/plain\r\nContent-Length: ".as_bytes());
        let len_digits = ascii::dec_u64(message.len() as u64);
        ascii::append_bytes(&mut v, len_digits.as_slice());
        ascii::append_bytes(&mut v, "\r\n\r\n".as_bytes());
        ascii::append_bytes(&mut v, message.as_slice());
        assert(v@ =~= self.spec_response());
        v
    }
}

} // verus!
