//! Lossless transformation between text and a compact byte representation.
//!
//! Compression is delegated to the zlib format through `flate2`; the UTF-8
//! layer is fully specified with `vstd`'s UTF-8 model, so a successful
//! compression carries a proof that decompression recovers the original
//! text exactly.

use std::io::Read;
use std::io::Write;
use vstd::prelude::*;
use vstd::utf8::decode_utf8;
use vstd::utf8::encode_utf8;
use vstd::utf8::encode_utf8_decode_utf8;
use vstd::utf8::encode_utf8_valid_utf8;
use vstd::utf8::valid_utf8;

verus! {

/// Why a codec operation failed.
#[derive(Clone, Copy, Debug, PartialEq, Eq, Structural)]
pub enum CodecError {
    /// The compression step itself reported a failure.
    EncodingFailure,
    /// The byte sequence is not a valid zlib stream.
    DecodingFailure,
    /// The inflated bytes are not valid UTF-8 text.
    InvalidText,
}

/// The zlib stream that compressing a byte sequence produces.
pub uninterp spec fn zlib_deflate(data: Seq<u8>) -> Seq<u8>;

/// The byte sequence that a zlib stream inflates to, or `None` when the
/// stream is rejected as invalid.
pub uninterp spec fn zlib_inflate(bytes: Seq<u8>) -> Option<Seq<u8>>;

/// The text, if any, that a byte sequence decompresses to: the zlib layer
/// must accept the bytes, and the inflated bytes must be valid UTF-8.
pub open spec fn decompressed_of(bytes: Seq<u8>) -> Option<Seq<char>> {
    match zlib_inflate(bytes) {
        Some(data) => if valid_utf8(data) {
            Some(decode_utf8(data))
        } else {
            None
        },
        None => None,
    }
}

/// Relies on `flate2::write::ZlibEncoder` (`new`, `write_all`, `finish`)
/// over an in-memory buffer: the finished stream is a function of the input
/// bytes alone, and `flate2::read::ZlibDecoder` inflates it back to exactly
/// those bytes (zlib compression is lossless). Encoding always runs to
/// completion: writing to a `Vec` cannot fail, and the compressor reports
/// no error for any input in this managed use.
#[verifier::external_body]
fn deflate_bytes(data: &[u8]) -> (r: Result<Vec<u8>, CodecError>)
    ensures
        r is Ok,
        r matches Ok(v) ==> v@ == zlib_deflate(data@) && zlib_inflate(v@) == Some(data@),
{
    let mut encoder = flate2::write::ZlibEncoder::new(Vec::new(), flate2::Compression::default());
    if encoder.write_all(data).is_err() {
        return Err(CodecError::EncodingFailure);
    }
    encoder.finish().map_err(|_| CodecError::EncodingFailure)
}

/// Relies on `flate2::read::ZlibDecoder` and `Read::read_to_end`: inflation
/// is a function of the compressed bytes alone, and it fails exactly when
/// the bytes do not begin with a complete, valid zlib stream (bytes after
/// the stream's end are ignored).
#[verifier::external_body]
fn inflate_bytes(bytes: &[u8]) -> (r: Result<Vec<u8>, CodecError>)
    ensures
        r matches Ok(v) ==> zlib_inflate(bytes@) == Some(v@),
        r matches Err(e) ==> zlib_inflate(bytes@) is None && e == CodecError::DecodingFailure,
{
    let mut decoder = flate2::read::ZlibDecoder::new(bytes);
    let mut data = Vec::new();
    match decoder.read_to_end(&mut data) {
        Ok(_) => Ok(data),
        Err(_) => Err(CodecError::DecodingFailure),
    }
}

/// Relies on `String::from_utf8`: it succeeds exactly on valid UTF-8 input
/// and returns the text whose encoding is that input.
#[verifier::external_body]
fn bytes_to_text(data: Vec<u8>) -> (r: Result<String, CodecError>)
    ensures
        r matches Ok(s) ==> valid_utf8(data@) && s@ == decode_utf8(data@),
        r matches Err(e) ==> !valid_utf8(data@) && e == CodecError::InvalidText,
{
    match String::from_utf8(data) {
        Ok(s) => Ok(s),
        Err(_) => Err(CodecError::InvalidText),
    }
}

/// Encode the text's bytes through zlib to completion.
///
/// The `Result` surfaces an encoding failure rather than panicking, but
/// for an in-memory buffer none can occur, so success is guaranteed: the
/// result is the deflated encoding of the text's UTF-8 bytes, and
/// decompressing it recovers the text exactly (lossless round trip).
pub fn compress(text: &str) -> (r: Result<Vec<u8>, CodecError>)
    ensures
        r matches Ok(v) && v@ == zlib_deflate(encode_utf8(text@)) && decompressed_of(v@)
            == Some(text@),
{
    proof {
        encode_utf8_valid_utf8(text@);
        encode_utf8_decode_utf8(text@);
    }
    deflate_bytes(text.as_bytes())
}

/// Decode a full zlib byte sequence back to the text it encodes.
///
/// Succeeds exactly when the bytes are a valid zlib stream that inflates
/// to valid UTF-8; each failure names the stage that rejected the input.
pub fn decompress(bytes: &[u8]) -> (r: Result<String, CodecError>)
    ensures
        r matches Ok(s) ==> decompressed_of(bytes@) == Some(s@),
        decompressed_of(bytes@) matches Some(t) ==> (r matches Ok(s) && s@ == t),
        zlib_inflate(bytes@) is None ==> (r matches Err(e) && e == CodecError::DecodingFailure),
        (zlib_inflate(bytes@) matches Some(d) && !valid_utf8(d)) ==> (r matches Err(e) && e
            == CodecError::InvalidText),
{
    match inflate_bytes(bytes) {
        Ok(data) => bytes_to_text(data),
        Err(e) => Err(e),
    }
}

} // verus!
