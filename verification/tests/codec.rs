use record_store::codec::compress;
use record_store::codec::decompress;
use record_store::codec::CodecError;
use std::io::Write;

#[test]
fn round_trip_hello() {
    let compressed = compress("hello").unwrap();
    assert_eq!(decompress(&compressed), Ok(String::from("hello")));
}

#[test]
fn round_trip_empty() {
    let compressed = compress("").unwrap();
    assert_eq!(decompress(&compressed), Ok(String::from("")));
}

#[test]
fn round_trip_printable() {
    let text = "The quick brown fox jumps over the lazy dog, 0123456789 times!";
    let compressed = compress(text).unwrap();
    assert_eq!(decompress(&compressed), Ok(String::from(text)));
}

#[test]
fn round_trip_multibyte_text() {
    let text = "héllo wörld — こんにちは ☃";
    let compressed = compress(text).unwrap();
    assert_eq!(decompress(&compressed), Ok(String::from(text)));
}

#[test]
fn round_trip_long_text() {
    let text = "a line of text that repeats itself over and over again. ".repeat(200);
    let compressed = compress(&text).unwrap();
    assert_eq!(decompress(&compressed), Ok(text));
}

#[test]
fn compression_shrinks_repetitive_text() {
    let text = "a".repeat(1000);
    let compressed = compress(&text).unwrap();
    assert!(compressed.len() < text.len());
    assert_ne!(compressed, text.into_bytes());
}

#[test]
fn decompress_garbage_is_decoding_failure() {
    assert_eq!(decompress(&[1u8, 2, 3, 4]), Err(CodecError::DecodingFailure));
}

#[test]
fn decompress_empty_is_decoding_failure() {
    assert_eq!(decompress(&[]), Err(CodecError::DecodingFailure));
}

#[test]
fn decompress_non_utf8_is_invalid_text() {
    let mut encoder =
        flate2::write::ZlibEncoder::new(Vec::new(), flate2::Compression::default());
    encoder.write_all(&[0xffu8, 0xfe, 0x9f, 0x00]).unwrap();
    let bytes = encoder.finish().unwrap();
    assert_eq!(decompress(&bytes), Err(CodecError::InvalidText));
}
