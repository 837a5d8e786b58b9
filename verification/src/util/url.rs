//! Texts that stand in URLs: decoding what a client sent, escaping what the
//! server writes into links.

use crate::text::{append_str, chars_of, string_of, upper_digit, upper_digit_char};
use vstd::prelude::*;
use vstd::string::StringSliceAdditionalSpecFns;
use vstd::utf8::{decode_utf8, valid_utf8};

verus! {

/// A hexadecimal digit of ASCII, in either case.
pub open spec fn is_hex_digit(b: u8) -> bool {
    (48 <= b <= 57) || (65 <= b <= 70) || (97 <= b <= 102)
}

/// The value of the hexadecimal digit `b`.
pub open spec fn hex_value(b: u8) -> int {
    if b <= 57 {
        b - 48
    } else if b <= 70 {
        b - 55
    } else {
        b - 87
    }
}

/// `b` with every `%` that two hexadecimal digits follow replaced, together
/// with the digits, by the byte that they write. Every other byte stays.
pub open spec fn percent_decoded_bytes(b: Seq<u8>) -> Seq<u8>
    decreases b.len(),
{
    if b.len() == 0 {
        b
    } else if b[0] == 37 && b.len() >= 3 && is_hex_digit(b[1]) && is_hex_digit(b[2]) {
        seq![(hex_value(b[1]) * 16 + hex_value(b[2])) as u8] + percent_decoded_bytes(b.skip(3))
    } else {
        seq![b[0]] + percent_decoded_bytes(b.skip(1))
    }
}

/// The text that the percent-decoded bytes of `s` encode, where they are
/// UTF-8.
pub open spec fn percent_decoded(s: Seq<u8>) -> Option<Seq<char>> {
    let bytes = percent_decoded_bytes(s);
    if valid_utf8(bytes) {
        Some(decode_utf8(bytes))
    } else {
        None
    }
}

/// Decodes a percent-encoded text, such as a part of a URL.
///
/// This is `percent_encoding::percent_decode` followed by `decode_utf8`: the
/// first replaces `%` and two hexadecimal digits by one byte and leaves all
/// else alone, the second fails unless the bytes are UTF-8.
#[verifier::external_body]
pub fn percent_decode(s: &str) -> (r: Option<String>)
    ensures
        match r {
            Some(t) => percent_decoded(s.spec_bytes()) == Some(t@),
            None => percent_decoded(s.spec_bytes()) is None,
        },
{
    percent_encoding::percent_decode(s.as_bytes()).decode_utf8().ok().map(|t| t.into_owned())
}

/// `s` with slashes dropped from its start for as long as two stand there.
pub open spec fn single_leading_slash(s: Seq<char>) -> Seq<char>
    decreases s.len(),
{
    if s.len() >= 2 && s[0] == '/' && s[1] == '/' {
        single_leading_slash(s.skip(1))
    } else {
        s
    }
}

/// The text of `s` from its `from`-th character on.
pub fn tail_from(s: &str, from: usize) -> (t: &str)
    requires
        from <= s@.len(),
    ensures
        t@ == s@.skip(from as int),
{
    let n = s.unicode_len();
    let t = s.substring_char(from, n);
    assert(s@.subrange(from as int, n as int) =~= s@.skip(from as int));
    t
}

/// What the server writes where a path does not decode to text.
pub open spec fn incorrect_utf8() -> Seq<char> {
    "<incorrect UTF8>"@
}

/// The path of a request as people read it: percent-decoded, with one slash
/// where several start it.
pub fn url_path(path: &str) -> (r: String)
    ensures
        r@ == match percent_decoded(vstd::utf8::encode_utf8(single_leading_slash(path@))) {
            Some(t) => t,
            None => incorrect_utf8(),
        },
{
    let chars = chars_of(path);
    let mut from: usize = 0;
    assert(chars@.skip(0) =~= chars@);
    while chars.len() - from >= 2 && chars[from] == '/' && chars[from + 1] == '/'
        invariant
            from <= chars.len(),
            single_leading_slash(chars@) == single_leading_slash(chars@.skip(from as int)),
        decreases chars.len() - from,
    {
        assert(chars@.skip(from as int).skip(1) =~= chars@.skip(from + 1));
        from = from + 1;
    }
    let rest = tail_from(path, from);
    match percent_decode(rest) {
        Some(t) => t,
        None => {
            let mut out: Vec<char> = Vec::new();
            append_str(&mut out, "<incorrect UTF8>");
            assert(out@ =~= incorrect_utf8());
            string_of(&out)
        },
    }
}

/// What stands in a URL for a character that would end or split it.
pub open spec fn special_escape(c: char) -> Seq<char> {
    if c == '%' {
        "%25"@
    } else if c == '#' {
        "%23"@
    } else if c == '?' {
        "%3F"@
    } else if c == '[' {
        "%5B"@
    } else if c == ']' {
        "%5D"@
    } else if c == '"' {
        "%22"@
    } else {
        seq![c]
    }
}

/// `s` with each of `%`, `#`, `?`, `[`, `]` and `"` percent-encoded.
pub open spec fn specials_escaped(s: Seq<char>) -> Seq<char>
    decreases s.len(),
{
    if s.len() == 0 {
        Seq::empty()
    } else {
        specials_escaped(s.drop_last()) + special_escape(s.last())
    }
}

/// Percent-encodes the characters that are special in a URL.
pub fn escape_specials(s: &str) -> (r: String)
    ensures
        r@ == specials_escaped(s@),
{
    let src = chars_of(s);
    let mut out: Vec<char> = Vec::new();
    let mut i: usize = 0;
    assert(src@.take(0) =~= Seq::<char>::empty());
    while i < src.len()
        invariant
            i <= src.len(),
            out@ == specials_escaped(src@.take(i as int)),
        decreases src.len() - i,
    {
        let c = src[i];
        let ghost before = out@;
        if c == '%' {
            append_str(&mut out, "%25");
        } else if c == '#' {
            append_str(&mut out, "%23");
        } else if c == '?' {
            append_str(&mut out, "%3F");
        } else if c == '[' {
            append_str(&mut out, "%5B");
        } else if c == ']' {
            append_str(&mut out, "%5D");
        } else if c == '"' {
            append_str(&mut out, "%22");
        } else {
            out.push(c);
            assert(out@ =~= before + seq![c]);
        }
        i = i + 1;
        proof {
            let t = src@.take(i as int);
            assert(t.drop_last() =~= src@.take(i - 1));
            assert(t.last() == c);
        }
    }
    assert(src@.take(i as int) =~= src@);
    string_of(&out)
}

/// Space, tab, line feed, form feed and carriage return.
pub open spec fn is_ascii_space(c: char) -> bool {
    c == ' ' || c == '\t' || c == '\n' || c == '\x0C' || c == '\r'
}

/// `s` with its last character percent-encoded if that is white space.
pub open spec fn tail_encoded(s: Seq<char>) -> Seq<char> {
    if s.len() > 0 && is_ascii_space(s.last()) {
        s.drop_last() + seq![
            '%',
            upper_digit_char((s.last() as u32 / 16) as int),
            upper_digit_char((s.last() as u32 % 16) as int),
        ]
    } else {
        s
    }
}

/// Percent-encodes the last character if it is white space, which a browser
/// would else cut off the end of a link.
pub fn encode_tail_if_trimmed(s: String) -> (r: String)
    ensures
        r@ == tail_encoded(s@),
{
    let mut chars = chars_of(s.as_str());
    let n = chars.len();
    if n == 0 {
        return s;
    }
    let c = chars[n - 1];
    if c == ' ' || c == '\t' || c == '\n' || c == '\x0C' || c == '\r' {
        let code = c as u32;
        chars.pop();
        chars.push('%');
        chars.push(upper_digit((code / 16) as u8));
        chars.push(upper_digit((code % 16) as u8));
        assert(chars@ =~= tail_encoded(s@));
        string_of(&chars)
    } else {
        s
    }
}

} // verus!
