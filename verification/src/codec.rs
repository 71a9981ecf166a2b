//! Body codecs. The encodings of `content-encoding` that the engine
//! understands, and the compression and decompression of whole bodies. The
//! codecs themselves are those of the async-compression crate.

use async_compression::tokio::bufread::{BrotliDecoder, DeflateDecoder, GzipDecoder, ZstdDecoder};
use async_compression::tokio::write::{BrotliEncoder, DeflateEncoder, GzipEncoder, ZstdEncoder};
use crate::bytes::copy_bytes;
use crate::text::str_eq;
use futures_util::FutureExt;
use tokio::io::{AsyncReadExt, AsyncWriteExt};
use vstd::prelude::*;

verus! {

/// A content encoding. Every name but `gzip`, `deflate`, `br` and `zstd`
/// stands for a body that is passed through untouched.
#[derive(Clone, Copy, Debug, PartialEq, Eq, Structural)]
pub enum Encoding {
    Gzip,
    Deflate,
    Brotli,
    Zstd,
    Identity,
}

/// The encoding that a `content-encoding` value names.
pub open spec fn encoding_of(name: Seq<char>) -> Encoding {
    if name == "gzip"@ {
        Encoding::Gzip
    } else if name == "deflate"@ {
        Encoding::Deflate
    } else if name == "br"@ {
        Encoding::Brotli
    } else if name == "zstd"@ {
        Encoding::Zstd
    } else {
        Encoding::Identity
    }
}

/// The encoding that a `content-encoding` value names.
pub fn parse_encoding(name: &str) -> (e: Encoding)
    ensures
        e == encoding_of(name@),
{
    if str_eq(name, "gzip") {
        Encoding::Gzip
    } else if str_eq(name, "deflate") {
        Encoding::Deflate
    } else if str_eq(name, "br") {
        Encoding::Brotli
    } else if str_eq(name, "zstd") {
        Encoding::Zstd
    } else {
        Encoding::Identity
    }
}

/// What the gzip decoder makes of these bytes; nothing where it fails.
pub uninterp spec fn gzip_decoded(data: Seq<u8>) -> Option<Seq<u8>>;

/// What the deflate decoder makes of these bytes; nothing where it fails.
pub uninterp spec fn deflate_decoded(data: Seq<u8>) -> Option<Seq<u8>>;

/// What the brotli decoder makes of these bytes; nothing where it fails.
pub uninterp spec fn brotli_decoded(data: Seq<u8>) -> Option<Seq<u8>>;

/// What the zstd decoder makes of these bytes; nothing where it fails.
pub uninterp spec fn zstd_decoded(data: Seq<u8>) -> Option<Seq<u8>>;

/// The body that `data` stands for under an encoding.
pub open spec fn decoded(e: Encoding, data: Seq<u8>) -> Option<Seq<u8>> {
    match e {
        Encoding::Gzip => gzip_decoded(data),
        Encoding::Deflate => deflate_decoded(data),
        Encoding::Brotli => brotli_decoded(data),
        Encoding::Zstd => zstd_decoded(data),
        Encoding::Identity => Some(data),
    }
}

/// What the gzip encoder makes of these bytes; nothing where it fails.
pub uninterp spec fn gzip_encoded(data: Seq<u8>) -> Option<Seq<u8>>;

/// What the deflate encoder makes of these bytes; nothing where it fails.
pub uninterp spec fn deflate_encoded(data: Seq<u8>) -> Option<Seq<u8>>;

/// What the brotli encoder makes of these bytes; nothing where it fails.
pub uninterp spec fn brotli_encoded(data: Seq<u8>) -> Option<Seq<u8>>;

/// What the zstd encoder makes of these bytes; nothing where it fails.
pub uninterp spec fn zstd_encoded(data: Seq<u8>) -> Option<Seq<u8>>;

/// The bytes that stand for a body under an encoding; nothing where the
/// encoder fails.
pub open spec fn encoded(e: Encoding, data: Seq<u8>) -> Option<Seq<u8>> {
    match e {
        Encoding::Gzip => gzip_encoded(data),
        Encoding::Deflate => deflate_encoded(data),
        Encoding::Brotli => brotli_encoded(data),
        Encoding::Zstd => zstd_encoded(data),
        Encoding::Identity => Some(data),
    }
}

/// Trusted: `GzipDecoder` of async-compression, read to its end over the
/// given bytes. The result is named, not described.
#[verifier::external_body]
fn gzip_decode(data: &[u8]) -> (r: Option<Vec<u8>>)
    ensures
        r.deep_view() == gzip_decoded(data@),
{
    let mut out = Vec::new();
    let read = GzipDecoder::new(data).read_to_end(&mut out).now_or_never();
    match read {
        Some(Ok(_)) => Some(out),
        _ => None,
    }
}

/// Trusted: `DeflateDecoder` of async-compression, read to its end over the
/// given bytes. The result is named, not described.
#[verifier::external_body]
fn deflate_decode(data: &[u8]) -> (r: Option<Vec<u8>>)
    ensures
        r.deep_view() == deflate_decoded(data@),
{
    let mut out = Vec::new();
    let read = DeflateDecoder::new(data).read_to_end(&mut out).now_or_never();
    match read {
        Some(Ok(_)) => Some(out),
        _ => None,
    }
}

/// Trusted: `BrotliDecoder` of async-compression, read to its end over the
/// given bytes. The result is named, not described.
#[verifier::external_body]
fn brotli_decode(data: &[u8]) -> (r: Option<Vec<u8>>)
    ensures
        r.deep_view() == brotli_decoded(data@),
{
    let mut out = Vec::new();
    let read = BrotliDecoder::new(data).read_to_end(&mut out).now_or_never();
    match read {
        Some(Ok(_)) => Some(out),
        _ => None,
    }
}

/// Trusted: `ZstdDecoder` of async-compression, read to its end over the
/// given bytes. The result is named, not described.
#[verifier::external_body]
fn zstd_decode(data: &[u8]) -> (r: Option<Vec<u8>>)
    ensures
        r.deep_view() == zstd_decoded(data@),
{
    let mut out = Vec::new();
    let read = ZstdDecoder::new(data).read_to_end(&mut out).now_or_never();
    match read {
        Some(Ok(_)) => Some(out),
        _ => None,
    }
}

/// Trusted: `GzipEncoder` of async-compression, written and shut down
/// over a buffer. The output is named, not described; all that is claimed
/// of it is that the gzip decoder gives the input back for it.
#[verifier::external_body]
fn gzip_encode(data: &[u8]) -> (r: Option<Vec<u8>>)
    ensures
        r.deep_view() == gzip_encoded(data@),
        r matches Some(out) ==> gzip_decoded(out@) == Some(data@),
{
    let mut out = Vec::new();
    let mut encoder = GzipEncoder::new(&mut out);
    let wrote = encoder.write_all(data).now_or_never();
    let closed = encoder.shutdown().now_or_never();
    match (wrote, closed) {
        (Some(Ok(_)), Some(Ok(_))) => Some(out),
        _ => None,
    }
}

/// Trusted: `DeflateEncoder` of async-compression, written and shut down
/// over a buffer. The output is named, not described; all that is claimed
/// of it is that the deflate decoder gives the input back for it.
#[verifier::external_body]
fn deflate_encode(data: &[u8]) -> (r: Option<Vec<u8>>)
    ensures
        r.deep_view() == deflate_encoded(data@),
        r matches Some(out) ==> deflate_decoded(out@) == Some(data@),
{
    let mut out = Vec::new();
    let mut encoder = DeflateEncoder::new(&mut out);
    let wrote = encoder.write_all(data).now_or_never();
    let closed = encoder.shutdown().now_or_never();
    match (wrote, closed) {
        (Some(Ok(_)), Some(Ok(_))) => Some(out),
        _ => None,
    }
}

/// Trusted: `BrotliEncoder` of async-compression, written and shut down
/// over a buffer. The output is named, not described; all that is claimed
/// of it is that the brotli decoder gives the input back for it.
#[verifier::external_body]
fn brotli_encode(data: &[u8]) -> (r: Option<Vec<u8>>)
    ensures
        r.deep_view() == brotli_encoded(data@),
        r matches Some(out) ==> brotli_decoded(out@) == Some(data@),
{
    let mut out = Vec::new();
    let mut encoder = BrotliEncoder::new(&mut out);
    let wrote = encoder.write_all(data).now_or_never();
    let closed = encoder.shutdown().now_or_never();
    match (wrote, closed) {
        (Some(Ok(_)), Some(Ok(_))) => Some(out),
        _ => None,
    }
}

/// Trusted: `ZstdEncoder` of async-compression, written and shut down
/// over a buffer. The output is named, not described; all that is claimed
/// of it is that the zstd decoder gives the input back for it.
#[verifier::external_body]
fn zstd_encode(data: &[u8]) -> (r: Option<Vec<u8>>)
    ensures
        r.deep_view() == zstd_encoded(data@),
        r matches Some(out) ==> zstd_decoded(out@) == Some(data@),
{
    let mut out = Vec::new();
    let mut encoder = ZstdEncoder::new(&mut out);
    let wrote = encoder.write_all(data).now_or_never();
    let closed = encoder.shutdown().now_or_never();
    match (wrote, closed) {
        (Some(Ok(_)), Some(Ok(_))) => Some(out),
        _ => None,
    }
}

/// Decodes a body under the encoding that `encoding` names; nothing where
/// the decoder fails.
pub fn decompress(encoding: &str, data: &[u8]) -> (r: Option<Vec<u8>>)
    ensures
        r.deep_view() == decoded(encoding_of(encoding@), data@),
{
    match parse_encoding(encoding) {
        Encoding::Gzip => gzip_decode(data),
        Encoding::Deflate => deflate_decode(data),
        Encoding::Brotli => brotli_decode(data),
        Encoding::Zstd => zstd_decode(data),
        Encoding::Identity => Some(copy_bytes(data)),
    }
}

/// Encodes a body under the encoding that `encoding` names; nothing where
/// the encoder fails. What comes out decodes to what went in.
pub fn compress(encoding: &str, data: &[u8]) -> (r: Option<Vec<u8>>)
    ensures
        r.deep_view() == encoded(encoding_of(encoding@), data@),
        r matches Some(out) ==> decoded(encoding_of(encoding@), out@) == Some(data@),
        encoding_of(encoding@) == Encoding::Identity ==> r is Some && r->0@ == data@,
{
    match parse_encoding(encoding) {
        Encoding::Gzip => gzip_encode(data),
        Encoding::Deflate => deflate_encode(data),
        Encoding::Brotli => brotli_encode(data),
        Encoding::Zstd => zstd_encode(data),
        Encoding::Identity => Some(copy_bytes(data)),
    }
}

/// The body as it is looked at: decoded where the decoder accepts it, else
/// the raw bytes.
pub open spec fn readable(encoding: Seq<char>, bytes: Seq<u8>) -> Seq<u8> {
    match decoded(encoding_of(encoding), bytes) {
        Some(body) => body,
        None => bytes,
    }
}

/// Decodes a body for inspection. A body that does not decode is looked at
/// as it came.
pub fn handle_body(bytes: Vec<u8>, content_encoding: &str) -> (r: Vec<u8>)
    ensures
        r@ == readable(content_encoding@, bytes@),
{
    match decompress(content_encoding, bytes.as_slice()) {
        Some(body) => body,
        None => bytes,
    }
}

/// What goes on in place of a body: what the encoder has made of it, or
/// the body itself where the encoder has made nothing.
pub open spec fn packed_or_plain(packed: Option<Seq<u8>>, body: Seq<u8>) -> Seq<u8> {
    match packed {
        Some(p) => p,
        None => body,
    }
}

/// The body as it goes on under the encoding that it came with: encoded
/// where there is an encoding and the encoder gives an output, else as it
/// is.
pub open spec fn repacked(body: Seq<u8>, encoding: Option<Seq<char>>) -> Seq<u8> {
    match encoding {
        Some(e) => packed_or_plain(encoded(encoding_of(e), body), body),
        None => body,
    }
}

/// Chooses what goes on in place of a body once the encoder has run: its
/// output, or the body itself where it has failed.
pub fn choose_packed(packed: Option<Vec<u8>>, body: Vec<u8>) -> (r: Vec<u8>)
    ensures
        r@ == packed_or_plain(packed.deep_view(), body@),
{
    match packed {
        Some(p) => p,
        None => body,
    }
}

/// Encodes a body again under the encoding that it came with. Without an
/// encoding, or where the encoder fails, the body goes on as it is. What
/// has been encoded decodes to the body.
pub fn repack_body(body: Vec<u8>, encoding: Option<&str>) -> (r: Vec<u8>)
    ensures
        r@ == repacked(body@, encoding.deep_view()),
        encoding matches Some(e) ==> (encoded(encoding_of(e@), body@) is Some ==> decoded(
            encoding_of(e@),
            r@,
        ) == Some(body@)),
        encoding is None ==> r@ == body@,
        encoding matches Some(e) ==> r@ == body@ || decoded(encoding_of(e@), r@) == Some(
            body@,
        ),
        encoding matches Some(e) ==> (encoding_of(e@) == Encoding::Identity ==> r@
            == body@),
{
    match encoding {
        Some(e) => {
            let packed = compress(e, body.as_slice());
            assert(packed matches Some(p) ==> p.deep_view() =~= p@);
            choose_packed(packed, body)
        },
        None => body,
    }
}

} // verus!
