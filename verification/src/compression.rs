//! Content-negotiated compression: picking an encoding from the
//! client's `Accept-Encoding` tokens, and applying or undoing it. The
//! encoders themselves are outside code; their outputs are named by
//! uninterpreted functions, and every caller's contract speaks of
//! those names.

use vstd::prelude::*;
use vstd::string::*;
use crate::ascii;
use crate::error::ServerError;

verus! {

/// The encodings the server can apply.
#[derive(Debug, Clone, Copy, PartialEq, Eq, Structural)]
pub enum Compression {
    Gzip,
    Deflate,
    Brotli,
    Identity,
}

/// What flate2's gzip encoder produces for the given input, at the
/// default level.
pub uninterp spec fn gzip_of(b: Seq<u8>) -> Seq<u8>;

/// What flate2's gzip decoder produces for the given input: the
/// decoded bytes, or nothing when the input is not a well-formed
/// stream.
pub uninterp spec fn gunzip_of(b: Seq<u8>) -> Option<Seq<u8>>;

/// What flate2's raw-deflate encoder produces for the given input, at
/// the default level.
pub uninterp spec fn deflate_of(b: Seq<u8>) -> Seq<u8>;

/// What flate2's raw-deflate decoder produces for the given input.
pub uninterp spec fn inflate_of(b: Seq<u8>) -> Option<Seq<u8>>;

/// What the brotli encoder produces for the given input, with default
/// parameters.
pub uninterp spec fn brotli_of(b: Seq<u8>) -> Seq<u8>;

/// What the brotli decoder produces for the given input.
pub uninterp spec fn unbrotli_of(b: Seq<u8>) -> Option<Seq<u8>>;

#[verifier::external_type_specification]
#[verifier::external_body]
pub struct ExIoError(std::io::Error);

/// Relies on flate2's `write::GzEncoder` with the default level: the
/// output is a function of the input alone (flate2 fixes the gzip
/// header fields for cross-platform reproducibility), decoding the
/// output yields the input again, and encoding into an in-memory
/// buffer has no failing path (the encoder only surfaces its sink's
/// errors, and writing to a `Vec` cannot fail).
#[verifier::external_body]
fn gzip_compress(data: &[u8]) -> (r: Vec<u8>)
    ensures
        r@ == gzip_of(data@),
        gunzip_of(r@) == Some(data@),
{
    let mut enc = flate2::write::GzEncoder::new(Vec::new(), flate2::Compression::default());
    std::io::Write::write_all(&mut enc, data).expect("writing to a Vec cannot fail");
    enc.finish().expect("writing to a Vec cannot fail")
}

/// Relies on flate2's `read::GzDecoder` driven by `read_to_end`:
/// decoding is a function of the input alone, and it fails exactly on
/// inputs that are not a complete well-formed gzip stream.
#[verifier::external_body]
fn gzip_decompress(data: &[u8]) -> (r: Result<Vec<u8>, std::io::Error>)
    ensures
        r matches Ok(v) ==> gunzip_of(data@) == Some(v@),
        r is Err ==> gunzip_of(data@) is None,
{
    let mut out = Vec::new();
    let mut dec = flate2::read::GzDecoder::new(data);
    std::io::Read::read_to_end(&mut dec, &mut out)?;
    Ok(out)
}

/// Relies on flate2's `write::DeflateEncoder` with the default level:
/// the output is a function of the input alone, decoding the output
/// yields the input again, and encoding into an in-memory buffer has
/// no failing path (only the sink's errors surface, and writing to a
/// `Vec` cannot fail).
#[verifier::external_body]
fn deflate_compress(data: &[u8]) -> (r: Vec<u8>)
    ensures
        r@ == deflate_of(data@),
        inflate_of(r@) == Some(data@),
{
    let mut enc = flate2::write::DeflateEncoder::new(Vec::new(), flate2::Compression::default());
    std::io::Write::write_all(&mut enc, data).expect("writing to a Vec cannot fail");
    enc.finish().expect("writing to a Vec cannot fail")
}

/// Relies on flate2's `read::DeflateDecoder` driven by `read_to_end`:
/// decoding is a function of the input alone, and it fails exactly on
/// inputs that are not a complete well-formed deflate stream.
#[verifier::external_body]
fn deflate_decompress(data: &[u8]) -> (r: Result<Vec<u8>, std::io::Error>)
    ensures
        r matches Ok(v) ==> inflate_of(data@) == Some(v@),
        r is Err ==> inflate_of(data@) is None,
{
    let mut out = Vec::new();
    let mut dec = flate2::read::DeflateDecoder::new(data);
    std::io::Read::read_to_end(&mut dec, &mut out)?;
    Ok(out)
}

/// Relies on `brotli::BrotliCompress` with default parameters: the
/// output is a function of the input alone, decoding the output
/// yields the input again, and encoding between in-memory buffers has
/// no failing path (the encoder only surfaces its reader's and
/// writer's errors, and a `Cursor` and a `Vec` cannot fail).
#[verifier::external_body]
fn brotli_compress(data: &[u8]) -> (r: Vec<u8>)
    ensures
        r@ == brotli_of(data@),
        unbrotli_of(r@) == Some(data@),
{
    let mut out = Vec::new();
    let params = brotli::enc::BrotliEncoderParams::default();
    brotli::BrotliCompress(&mut std::io::Cursor::new(data), &mut out, &params)
        .expect("compressing into a Vec cannot fail");
    out
}

/// Relies on `brotli::BrotliDecompress`: decoding is a function of the
/// input alone, and it fails exactly on inputs that are not a complete
/// well-formed brotli stream.
#[verifier::external_body]
fn brotli_decompress(data: &[u8]) -> (r: Result<Vec<u8>, std::io::Error>)
    ensures
        r matches Ok(v) ==> unbrotli_of(data@) == Some(v@),
        r is Err ==> unbrotli_of(data@) is None,
{
    let mut out = Vec::new();
    brotli::BrotliDecompress(&mut std::io::Cursor::new(data), &mut out)?;
    Ok(out)
}

/// The first recognized token wins: `br`, `gzip` and `deflate` map to
/// their encodings, anything else is skipped, and no match means no
/// compression.
pub open spec fn spec_select(es: Seq<Seq<u8>>) -> Compression
    decreases es.len(),
{
    if es.len() == 0 {
        Compression::Identity
    } else if es[0] == ("br").spec_bytes() {
        Compression::Brotli
    } else if es[0] == ("gzip").spec_bytes() {
        Compression::Gzip
    } else if es[0] == ("deflate").spec_bytes() {
        Compression::Deflate
    } else {
        spec_select(es.drop_first())
    }
}

/// The token an encoding is announced under in `Content-Encoding`.
pub open spec fn spec_name(c: Compression) -> Seq<u8> {
    match c {
        Compression::Gzip => ("gzip").spec_bytes(),
        Compression::Deflate => ("deflate").spec_bytes(),
        Compression::Brotli => ("br").spec_bytes(),
        Compression::Identity => ("identity").spec_bytes(),
    }
}

/// The bytes an encoding turns a body into.
pub open spec fn spec_compressed(c: Compression, b: Seq<u8>) -> Seq<u8> {
    match c {
        Compression::Gzip => gzip_of(b),
        Compression::Deflate => deflate_of(b),
        Compression::Brotli => brotli_of(b),
        Compression::Identity => b,
    }
}

/// What decoding under an encoding yields, when it succeeds.
pub open spec fn spec_decompressed(c: Compression, b: Seq<u8>) -> Option<Seq<u8>> {
    match c {
        Compression::Gzip => gunzip_of(b),
        Compression::Deflate => inflate_of(b),
        Compression::Brotli => unbrotli_of(b),
        Compression::Identity => Some(b),
    }
}

impl Compression {
    /// Scans the client's tokens in the order given and returns the
    /// first recognized encoding, or none.
    pub fn from_accept_encoding(encodings: &Vec<Vec<u8>>) -> (r: Compression)
        ensures
            r == spec_select(ascii::views_of(encodings@)),
    {
        let ghost full = ascii::views_of(encodings@);
        let n = encodings.len();
        let mut i: usize = 0;
        assert(full.skip(0) =~= full);
        while i < n
            invariant
                n == encodings@.len(),
                full == ascii::views_of(encodings@),
                i <= n,
                spec_select(full) == spec_select(full.skip(i as int)),
            decreases n - i,
        {
            let e = &encodings[i];
            assert(e@ == full[i as int]);
            assert(full.skip(i as int)[0] == full[i as int]);
            if ascii::bytes_eq(e.as_slice(), "br".as_bytes()) {
                return Compression::Brotli;
            } else if ascii::bytes_eq(e.as_slice(), "gzip".as_bytes()) {
                return Compression::Gzip;
            } else if ascii::bytes_eq(e.as_slice(), "deflate".as_bytes()) {
                return Compression::Deflate;
            }
            assert(full.skip(i as int).drop_first() =~= full.skip(i as int + 1));
            i = i + 1;
        }
        assert(full.skip(n as int).len() == 0);
        Compression::Identity
    }

    /// The token this encoding is announced under.
    pub fn name(&self) -> (r: &'static str)
        ensures
            r.spec_bytes() == spec_name(*self),
    {
        match self {
            Compression::Gzip => "gzip",
            Compression::Deflate => "deflate",
            Compression::Brotli => "br",
            Compression::Identity => "identity",
        }
    }

    /// Applies this encoding to `data`. Encoding never fails: identity
    /// returns the bytes unchanged, and each concrete encoder writes
    /// into memory, which has no failing path. The result always
    /// decodes back to `data`.
    pub fn compress(&self, data: &[u8]) -> (r: Result<Vec<u8>, ServerError>)
        ensures
            r matches Ok(v) && v@ == spec_compressed(*self, data@) && spec_decompressed(*self, v@)
                == Some(data@),
    {
        match self {
            Compression::Gzip => Ok(gzip_compress(data)),
            Compression::Deflate => Ok(deflate_compress(data)),
            Compression::Brotli => Ok(brotli_compress(data)),
            Compression::Identity => Ok(vstd::slice::slice_to_vec(data)),
        }
    }

    /// Undoes this encoding. It succeeds exactly when `data` decodes
    /// under this encoding; identity always succeeds.
    pub fn decompress(&self, data: &[u8]) -> (r: Result<Vec<u8>, ServerError>)
        ensures
            r matches Ok(v) ==> spec_decompressed(*self, data@) == Some(v@),
            r is Ok <==> spec_decompressed(*self, data@) is Some,
            r matches Err(e) ==> e matches ServerError::CompressionError(d) && d@ == match *self {
                Compression::Gzip => ("Gzip decompression failed").spec_bytes(),
                Compression::Deflate => ("Deflate decompression failed").spec_bytes(),
                Compression::Brotli => ("Brotli decompression failed").spec_bytes(),
                Compression::Identity => Seq::<u8>::empty(),
            },
    {
        match self {
            Compression::Gzip => match gzip_decompress(data) {
                Ok(v) => Ok(v),
                Err(_) => Err(
                    ServerError::CompressionError("Gzip decompression failed".as_bytes_vec()),
                ),
            },
            Compression::Deflate => match deflate_decompress(data) {
                Ok(v) => Ok(v),
                Err(_) => Err(
                    ServerError::CompressionError("Deflate decompression failed".as_bytes_vec()),
                ),
            },
            Compression::Brotli => match brotli_decompress(data) {
                Ok(v) => Ok(v),
                Err(_) => Err(
                    ServerError::CompressionError("Brotli decompression failed".as_bytes_vec()),
                ),
            },
            Compression::Identity => Ok(vstd::slice::slice_to_vec(data)),
        }
    }

    /// Round trip: for every encoding, decompressing what `compress`
    /// produced succeeds and yields the input bytes exactly, the empty
    /// input included.
    pub fn round_trip(&self, data: &[u8]) -> (r: Result<Vec<u8>, ServerError>)
        ensures
            r matches Ok(v) && v@ == data@,
    {
        let compressed = match self.compress(data) {
            Ok(v) => v,
            Err(e) => {
                return Err(e);
            },
        };
        match self.decompress(compressed.as_slice()) {
            Ok(v) => Ok(v),
            Err(e) => Err(e),
        }
    }
}

} // verus!
