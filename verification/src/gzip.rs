//! The gzip framing of the save file.
//!
//! A scoreboard file is the gzip compression of an encoded byte tree. The
//! compression itself is done by the flate2 crate behind two trusted
//! wrappers; the library states decompression as a mathematical function of
//! the input bytes (`gunzip`) and proves the error mapping around the
//! calls. Compression into memory always succeeds, and promises nothing
//! about its output bytes beyond the one property the tool needs:
//! decompressing them yields the input again.

use vstd::prelude::*;

use crate::ScoreboardError;

verus! {

#[verifier::external_type_specification]
#[verifier::external_body]
pub struct ExIoError(std::io::Error);

/// The bytes that gzip decompression yields on `bytes`, or `None` when
/// `bytes` is not a well-formed gzip stream. Decompression of a byte
/// sequence depends on those bytes alone.
pub uninterp spec fn gunzip(bytes: Seq<u8>) -> Option<Seq<u8>>;

/// Relies on flate2's `read::GzDecoder` driven by `Read::read_to_end`:
/// decompressing a byte slice is a function of the bytes alone, it succeeds
/// exactly when the bytes begin with one well-formed gzip member (bytes
/// after that member are ignored), and on success it yields the member's
/// uncompressed payload.
#[verifier::external_body]
fn inflate(data: &[u8]) -> (r: Result<Vec<u8>, std::io::Error>)
    ensures
        (r is Ok) == (gunzip(data@) is Some),
        r is Ok ==> Some(r->Ok_0@) == gunzip(data@),
{
    let mut decoder = flate2::read::GzDecoder::new(data);
    let mut out = Vec::new();
    match std::io::Read::read_to_end(&mut decoder, &mut out) {
        Ok(_) => Ok(out),
        Err(e) => Err(e),
    }
}

/// Relies on flate2's `write::GzEncoder` at `Compression::fast`, writing
/// into an in-memory `Vec<u8>`: every error path of `write_all` and
/// `finish` propagates either from the underlying writer, and writes to a
/// `Vec` cannot fail, or from compressor states that a valid compression
/// level never reaches, so the call always succeeds; and gzip compression
/// is lossless, so decompressing its output yields the input bytes again.
#[verifier::external_body]
fn deflate_fast(data: &[u8]) -> (r: Result<Vec<u8>, std::io::Error>)
    ensures
        r is Ok,
        r is Ok ==> gunzip(r->Ok_0@) == Some(data@),
{
    let mut encoder = flate2::write::GzEncoder::new(Vec::new(), flate2::Compression::fast());
    match std::io::Write::write_all(&mut encoder, data) {
        Ok(()) => encoder.finish(),
        Err(e) => Err(e),
    }
}

/// Decompress the raw bytes of a scoreboard file.
///
/// Succeeds exactly when the bytes form a well-formed gzip stream, and then
/// returns its uncompressed payload; otherwise fails with `DecodeError`.
pub fn decompress_scoreboard(data: &[u8]) -> (r: Result<Vec<u8>, ScoreboardError>)
    ensures
        (r is Ok) == (gunzip(data@) is Some),
        r is Ok ==> Some(r->Ok_0@) == gunzip(data@),
        r is Err ==> r->Err_0 == ScoreboardError::DecodeError,
{
    match inflate(data) {
        Ok(v) => Ok(v),
        Err(_) => Err(ScoreboardError::DecodeError),
    }
}

/// Compress the encoded bytes of a scoreboard for writing out.
///
/// Always succeeds: the encoder compresses into memory, which cannot fail.
/// Decompressing the result yields `data` again, so nothing of the payload
/// is lost in the written file. The `Result` keeps the encode stage's place
/// in the error taxonomy, but no input reaches the error.
pub fn compress_scoreboard(data: &[u8]) -> (r: Result<Vec<u8>, ScoreboardError>)
    ensures
        r is Ok,
        r is Ok ==> gunzip(r->Ok_0@) == Some(data@),
{
    match deflate_fast(data) {
        Ok(v) => Ok(v),
        Err(_) => Err(ScoreboardError::EncodeError),
    }
}

} // verus!
