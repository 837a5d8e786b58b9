use https::ops::encode::{
    file_hash, encode_str, encoding_extension, is_supported, is_text, response_encoding, to_hex,
    Accepted,
};
use std::io::Read;

fn accepted(items: &[(&str, u16)]) -> Vec<Accepted> {
    items.iter().map(|(n, q)| Accepted { name: n.to_string(), quality: *q }).collect()
}

fn text() -> Vec<u8> {
    "The quick brown fox jumps over the lazy dog. ".repeat(200).into_bytes()
}

#[test]
fn response_encoding_takes_the_first_acceptable() {
    assert_eq!(response_encoding(&accepted(&[("gzip", 1000), ("br", 1000)])), Some("gzip".to_string()));
    assert_eq!(response_encoding(&accepted(&[("br", 1000), ("gzip", 1000)])), Some("br".to_string()));
    assert_eq!(response_encoding(&accepted(&[("deflate", 500)])), Some("deflate".to_string()));
    assert_eq!(response_encoding(&accepted(&[("zstd", 1000), ("gzip", 1)])), Some("gzip".to_string()));
}

#[test]
fn response_encoding_skips_zero_quality() {
    assert_eq!(response_encoding(&accepted(&[("gzip", 0), ("br", 300)])), Some("br".to_string()));
    assert_eq!(response_encoding(&accepted(&[("gzip", 0)])), None);
}

#[test]
fn response_encoding_is_identity_without_a_known_encoding() {
    assert_eq!(response_encoding(&accepted(&[])), None);
    assert_eq!(response_encoding(&accepted(&[("identity", 1000)])), None);
    assert_eq!(response_encoding(&accepted(&[("*", 1000), ("compress", 1000)])), None);
    assert_eq!(response_encoding(&accepted(&[("GZIP", 1000)])), None);
}

#[test]
fn supported_encodings() {
    assert!(is_supported("br"));
    assert!(is_supported("gzip"));
    assert!(is_supported("deflate"));
    assert!(!is_supported("identity"));
    assert!(!is_supported("bzip2"));
    assert!(!is_supported(""));
    assert!(is_text("gzip", "gzip"));
    assert!(!is_text("gzip", "gzi"));
}

#[test]
fn encoding_extensions() {
    assert_eq!(encoding_extension("gzip"), Some("gz"));
    assert_eq!(encoding_extension("deflate"), Some("dflt"));
    assert_eq!(encoding_extension("br"), Some("br"));
    assert_eq!(encoding_extension("identity"), None);
}

#[test]
fn gzip_round_trip() {
    let text = text();
    let encoded = encode_str(&text, "gzip").unwrap();
    assert!(encoded.len() < text.len());
    assert_ne!(encoded, text);
    assert_eq!(&encoded[..2], &[0x1f, 0x8b]);
    let mut decoded = Vec::new();
    flate2::read::GzDecoder::new(&encoded[..]).read_to_end(&mut decoded).unwrap();
    assert_eq!(decoded, text);
}

#[test]
fn deflate_round_trip() {
    let text = text();
    let encoded = encode_str(&text, "deflate").unwrap();
    assert!(encoded.len() < text.len());
    assert_ne!(encoded, text);
    let mut decoded = Vec::new();
    flate2::read::DeflateDecoder::new(&encoded[..]).read_to_end(&mut decoded).unwrap();
    assert_eq!(decoded, text);
}

#[test]
fn brotli_round_trip() {
    let text = text();
    let encoded = encode_str(&text, "br").unwrap();
    assert!(encoded.len() < text.len());
    assert_ne!(encoded, text);
    let mut decoded = Vec::new();
    brotli::Decompressor::new(&encoded[..], 4096).read_to_end(&mut decoded).unwrap();
    assert_eq!(decoded, text);
}

#[test]
fn encoding_is_a_function_of_the_data() {
    let text = text();
    for encoding in ["gzip", "deflate", "br"] {
        assert_eq!(encode_str(&text, encoding), encode_str(&text, encoding));
    }
    assert_ne!(encode_str(&text, "gzip"), encode_str(&text, "deflate"));
}

#[test]
fn unknown_encodings_are_not_produced() {
    assert_eq!(encode_str(&text(), "identity"), None);
    assert_eq!(encode_str(&text(), "bzip2"), None);
    assert_eq!(encode_str(&text(), ""), None);
}

#[test]
fn blake3_of_known_inputs() {
    assert_eq!(
        to_hex(&file_hash(b"")),
        "af1349b9f5f9a1a6a0404dea36dcc9499bcb25c9adc112b7cc9a93cae41f3262"
    );
    assert_eq!(file_hash(b"abc").len(), 32);
    assert_ne!(file_hash(b"abc"), b"abc".to_vec());
    assert_eq!(to_hex(&file_hash(b"abc")), blake3::hash(b"abc").to_hex().as_str());
}

#[test]
fn to_hex_writes_two_digits_a_byte() {
    assert_eq!(to_hex(&vec![]), "");
    assert_eq!(to_hex(&vec![0x00, 0x0f, 0xa0, 0xff]), "000fa0ff");
}
