//! Content encodings: which one a client is served, and the encoded form of a
//! body.

use crate::text::{chars_of, same};
use std::io::Write;
use vstd::prelude::*;

verus! {

/// The gzip stream that `flate2` writes for `data` at its default level, or
/// `None` where it reports an error.
pub uninterp spec fn gzip_form(data: Seq<u8>) -> Option<Seq<u8>>;

/// The raw deflate stream that `flate2` writes for `data` at its default
/// level, or `None` where it reports an error.
pub uninterp spec fn deflate_form(data: Seq<u8>) -> Option<Seq<u8>>;

/// The brotli stream that `brotli` writes for `data` with its default
/// parameters, or `None` where it reports an error.
pub uninterp spec fn brotli_form(data: Seq<u8>) -> Option<Seq<u8>>;

/// Runs `data` through `flate2::write::GzEncoder` at `Compression::default()`.
/// The stream depends on the data alone: the header carries no time and no
/// file name.
#[verifier::external_body]
fn gzip(data: &Vec<u8>) -> (r: Option<Vec<u8>>)
    ensures
        match r {
            Some(v) => gzip_form(data@) == Some(v@),
            None => gzip_form(data@) is None,
        },
{
    let mut encoder = flate2::write::GzEncoder::new(Vec::new(), flate2::Compression::default());
    encoder.write_all(data).ok()?;
    encoder.finish().ok()
}

/// Runs `data` through `flate2::write::DeflateEncoder` at
/// `Compression::default()`.
#[verifier::external_body]
fn deflate(data: &Vec<u8>) -> (r: Option<Vec<u8>>)
    ensures
        match r {
            Some(v) => deflate_form(data@) == Some(v@),
            None => deflate_form(data@) is None,
        },
{
    let mut encoder = flate2::write::DeflateEncoder::new(Vec::new(), flate2::Compression::default());
    encoder.write_all(data).ok()?;
    encoder.finish().ok()
}

/// Runs `data` through `brotli::BrotliCompress` with
/// `BrotliEncoderParams::default()`.
#[verifier::external_body]
fn brotli(data: &Vec<u8>) -> (r: Option<Vec<u8>>)
    ensures
        match r {
            Some(v) => brotli_form(data@) == Some(v@),
            None => brotli_form(data@) is None,
        },
{
    let mut out = Vec::new();
    let params = brotli::enc::BrotliEncoderParams::default();
    brotli::BrotliCompress(&mut &data[..], &mut out, &params).ok()?;
    Some(out)
}

/// Whether `s` is the text `lit`.
pub fn is_text(s: &str, lit: &str) -> (r: bool)
    ensures
        r == (s@ == lit@),
{
    let a = chars_of(s);
    let b = chars_of(lit);
    same(&a, &b)
}

/// The encodings that the server can produce.
pub open spec fn supported(name: Seq<char>) -> bool {
    name == "br"@ || name == "gzip"@ || name == "deflate"@
}

/// Whether the server can produce the encoding `name`.
pub fn is_supported(name: &str) -> (r: bool)
    ensures
        r == supported(name@),
{
    is_text(name, "br") || is_text(name, "gzip") || is_text(name, "deflate")
}

/// `data` in the encoding `encoding`; `None` for an encoding that the server
/// does not produce, or where the encoder fails.
pub open spec fn encoded_form(data: Seq<u8>, encoding: Seq<char>) -> Option<Seq<u8>> {
    if encoding == "gzip"@ {
        gzip_form(data)
    } else if encoding == "deflate"@ {
        deflate_form(data)
    } else if encoding == "br"@ {
        brotli_form(data)
    } else {
        None
    }
}

/// Encodes `data` as `encoding`.
pub fn encode_str(data: &Vec<u8>, encoding: &str) -> (r: Option<Vec<u8>>)
    ensures
        match r {
            Some(v) => encoded_form(data@, encoding@) == Some(v@),
            None => encoded_form(data@, encoding@) is None,
        },
{
    if is_text(encoding, "gzip") {
        gzip(data)
    } else if is_text(encoding, "deflate") {
        deflate(data)
    } else if is_text(encoding, "br") {
        brotli(data)
    } else {
        None
    }
}

/// The file name extension that marks a file encoded as `encoding`.
pub open spec fn extension_of(encoding: Seq<char>) -> Option<Seq<char>> {
    if encoding == "gzip"@ {
        Some("gz"@)
    } else if encoding == "deflate"@ {
        Some("dflt"@)
    } else if encoding == "br"@ {
        Some("br"@)
    } else {
        None
    }
}

/// The extension for files encoded as `encoding`, where it has one of its
/// own.
pub fn encoding_extension(encoding: &str) -> (r: Option<&'static str>)
    ensures
        match r {
            Some(e) => extension_of(encoding@) == Some(e@),
            None => extension_of(encoding@) is None,
        },
{
    if is_text(encoding, "gzip") {
        Some("gz")
    } else if is_text(encoding, "deflate") {
        Some("dflt")
    } else if is_text(encoding, "br") {
        Some("br")
    } else {
        None
    }
}

/// One item of an `Accept-Encoding` header: an encoding's name and its
/// quality in thousandths.
pub struct Accepted {
    pub name: String,
    pub quality: u16,
}

/// The client takes this encoding, and the server can produce it.
pub open spec fn acceptable(a: Accepted) -> bool {
    a.quality != 0 && supported(a.name@)
}

/// The offset of the first acceptable item of `s`, or the length of `s`.
pub open spec fn first_acceptable(s: Seq<Accepted>) -> int
    decreases s.len(),
{
    if s.len() == 0 {
        0
    } else if acceptable(s[0]) {
        0
    } else {
        1 + first_acceptable(s.skip(1))
    }
}

proof fn lemma_first_acceptable(s: Seq<Accepted>, i: int)
    requires
        0 <= i <= s.len(),
        forall|j: int| 0 <= j < i ==> !acceptable(#[trigger] s[j]),
        i < s.len() ==> acceptable(s[i]),
    ensures
        first_acceptable(s) == i,
    decreases s.len(),
{
    if s.len() != 0 && !acceptable(s[0]) {
        let t = s.skip(1);
        assert forall|j: int| 0 <= j < i - 1 implies !acceptable(#[trigger] t[j]) by {
            assert(t[j] == s[j + 1]);
        }
        lemma_first_acceptable(t, i - 1);
    }
}

/// The encoding to answer in: that of the first item of the header, in the
/// header's order, that has a quality other than zero and that the server
/// can produce. `None` stands for the identity.
pub open spec fn negotiated(requested: Seq<Accepted>) -> Option<Seq<char>> {
    let i = first_acceptable(requested);
    if 0 <= i < requested.len() {
        Some(requested[i].name@)
    } else {
        None
    }
}

/// Picks the encoding to answer in.
pub fn response_encoding(requested: &Vec<Accepted>) -> (r: Option<String>)
    ensures
        match r {
            Some(name) => negotiated(requested@) == Some(name@),
            None => negotiated(requested@) is None,
        },
{
    let mut i: usize = 0;
    while i < requested.len()
        invariant
            i <= requested.len(),
            forall|j: int| 0 <= j < i ==> !acceptable(#[trigger] requested@[j]),
        decreases requested.len() - i,
    {
        if requested[i].quality != 0 && is_supported(requested[i].name.as_str()) {
            proof {
                lemma_first_acceptable(requested@, i as int);
            }
            return Some(requested[i].name.clone());
        }
        i = i + 1;
    }
    proof {
        lemma_first_acceptable(requested@, i as int);
    }
    None
}

/// The BLAKE3 hash of `data`.
pub uninterp spec fn blake3_digest(data: Seq<u8>) -> Seq<u8>;

/// `blake3::hash`: the 32-byte BLAKE3 hash of the data, which depends on
/// nothing but the data.
#[verifier::external_body]
fn blake3_hash(data: &[u8]) -> (r: Vec<u8>)
    ensures
        r@ == blake3_digest(data@),
{
    blake3::hash(data).as_bytes().to_vec()
}

/// The fingerprint of a file with the contents `content`, or of a page with
/// that text.
pub fn file_hash(content: &[u8]) -> (r: Vec<u8>)
    ensures
        r@ == blake3_digest(content@),
{
    blake3_hash(content)
}

/// `bytes` in lower-case hexadecimal, two digits for each byte.
pub open spec fn hex_of(bytes: Seq<u8>) -> Seq<char>
    decreases bytes.len(),
{
    if bytes.len() == 0 {
        Seq::empty()
    } else {
        hex_of(bytes.drop_last()) + seq![
            crate::text::digit_char((bytes.last() / 16) as int),
            crate::text::digit_char((bytes.last() % 16) as int),
        ]
    }
}

/// Writes `bytes` in lower-case hexadecimal.
pub fn to_hex(bytes: &Vec<u8>) -> (r: String)
    ensures
        r@ == hex_of(bytes@),
{
    let mut out: Vec<char> = Vec::new();
    let mut i: usize = 0;
    assert(bytes@.take(0) =~= Seq::<u8>::empty());
    while i < bytes.len()
        invariant
            i <= bytes.len(),
            out@ == hex_of(bytes@.take(i as int)),
        decreases bytes.len() - i,
    {
        let b = bytes[i];
        let ghost before = out@;
        out.push(crate::text::digit(b / 16));
        out.push(crate::text::digit(b % 16));
        i = i + 1;
        proof {
            let t = bytes@.take(i as int);
            assert(t.drop_last() =~= bytes@.take(i - 1));
            assert(t.last() == b);
            assert(out@ =~= before + seq![
                crate::text::digit_char((b / 16) as int),
                crate::text::digit_char((b % 16) as int),
            ]);
        }
    }
    assert(bytes@.take(i as int) =~= bytes@);
    crate::text::string_of(&out)
}

} // verus!
