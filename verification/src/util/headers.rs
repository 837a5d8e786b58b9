//! The headers that the server reads or writes beyond the standard ones.

use vstd::prelude::*;

verus! {

/// A header's raw value could not be read.
#[derive(Debug, PartialEq, Eq, Structural)]
pub enum HeaderError {
    Header,
}

/// A decimal digit of ASCII.
pub open spec fn is_digit(b: u8) -> bool {
    48 <= b <= 57
}

/// `s` holds decimal digits only.
pub open spec fn all_digits(s: Seq<u8>) -> bool {
    forall|i: int| 0 <= i < s.len() ==> is_digit(#[trigger] s[i])
}

/// The number that the decimal digits `s` write.
pub open spec fn decimal_value(s: Seq<u8>) -> nat
    decreases s.len(),
{
    if s.len() == 0 {
        0
    } else {
        decimal_value(s.drop_last()) * 10 + (s.last() - 48) as nat
    }
}

/// `s` without a plus sign at its start.
pub open spec fn unsigned_part(s: Seq<u8>) -> Seq<u8> {
    if s.len() > 0 && s[0] == 43 {
        s.skip(1)
    } else {
        s
    }
}

/// The number that `s` writes in decimal: one or more digits, with at most a
/// plus sign before them, and a value that fits in 64 bits.
pub open spec fn parsed_u64(s: Seq<u8>) -> Option<u64> {
    let digits = unsigned_part(s);
    if digits.len() > 0 && all_digits(digits) && decimal_value(digits) <= u64::MAX {
        Some(decimal_value(digits) as u64)
    } else {
        None
    }
}

proof fn lemma_decimal_value_grows(s: Seq<u8>, i: int)
    requires
        all_digits(s),
        0 <= i <= s.len(),
    ensures
        decimal_value(s.take(i)) <= decimal_value(s),
    decreases s.len() - i,
{
    if i < s.len() {
        lemma_decimal_value_grows(s, i + 1);
        assert(s.take(i + 1).drop_last() =~= s.take(i));
        assert(is_digit(s[i]));
    } else {
        assert(s.take(i) =~= s);
    }
}

/// Reads a number of 64 bits in decimal.
pub fn parse_u64(s: &Vec<u8>) -> (r: Option<u64>)
    ensures
        r == parsed_u64(s@),
{
    let start: usize = if s.len() > 0 && s[0] == 43 {
        1
    } else {
        0
    };
    if start == s.len() {
        return None;
    }
    let ghost digits = unsigned_part(s@);
    assert(digits =~= s@.skip(start as int));
    let mut value: u64 = 0;
    let mut i: usize = start;
    assert(digits.take(0) =~= Seq::<u8>::empty());
    while i < s.len()
        invariant
            start <= i <= s.len(),
            digits == s@.skip(start as int),
            digits == unsigned_part(s@),
            all_digits(digits.take(i - start)),
            value == decimal_value(digits.take(i - start)),
        decreases s.len() - i,
    {
        let b = s[i];
        assert(b == digits[i - start]);
        if b < 48 || b > 57 {
            assert(!is_digit(digits[i - start]));
            return None;
        }
        let d: u64 = (b - 48) as u64;
        proof {
            let t = digits.take(i + 1 - start);
            assert(t.drop_last() =~= digits.take(i - start));
            assert(t.last() == b);
            assert forall|j: int| 0 <= j < t.len() implies is_digit(#[trigger] t[j]) by {
                if j < t.len() - 1 {
                    assert(t[j] == digits.take(i - start)[j]);
                }
            }
        }
        if value > (u64::MAX - d) / 10 {
            proof {
                let t = digits.take(i + 1 - start);
                assert(decimal_value(t) == value * 10 + d);
                assert(decimal_value(t) > u64::MAX);
                if all_digits(digits) {
                    lemma_decimal_value_grows(digits, i + 1 - start);
                }
            }
            return None;
        }
        value = value * 10 + d;
        i = i + 1;
    }
    assert(digits.take(i - start) =~= digits);
    Some(value)
}

/// The challenge that is sent with a refusal to serve without credentials.
/// The server only ever sends this header.
#[derive(Debug)]
pub struct WwwAuthenticate(pub String);

impl WwwAuthenticate {
    /// The header's name.
    pub fn header_name() -> (name: &'static str)
        ensures
            name@ == "WWW-Authenticate"@,
    {
        "WWW-Authenticate"
    }

    /// The header's value as it goes on the wire.
    pub fn fmt_header(&self) -> (value: String)
        ensures
            value@ == self.0@,
    {
        self.0.clone()
    }
}

/// When an uploaded file was last modified, in milliseconds since the epoch.
/// The server only ever receives this header.
#[derive(Debug, Clone, Copy, PartialEq, Eq, Structural)]
pub struct XLastModified(pub u64);

impl XLastModified {
    /// The header's name.
    pub fn header_name() -> (name: &'static str)
        ensures
            name@ == "X-Last-Modified"@,
    {
        "X-Last-Modified"
    }

    /// Reads the header from the raw values that a request carries under its
    /// name: exactly one value, which is a decimal number.
    pub fn parse_header(data: &Vec<Vec<u8>>) -> (r: Result<XLastModified, HeaderError>)
        ensures
            r is Ok <==> data@.len() == 1 && parsed_u64(data@[0]@) is Some,
            r is Ok ==> r->Ok_0.0 == parsed_u64(data@[0]@)->0,
    {
        if data.len() != 1 {
            return Err(HeaderError::Header);
        }
        match parse_u64(&data[0]) {
            Some(ms) => Ok(XLastModified(ms)),
            None => Err(HeaderError::Header),
        }
    }
}

/// When an uploaded file was last modified, in seconds since the epoch, as
/// some WebDAV clients send it. The server only ever receives this header.
#[derive(Debug, Clone, Copy, PartialEq, Eq, Structural)]
pub struct XOcMTime(pub u64);

impl XOcMTime {
    /// The header's name.
    pub fn header_name() -> (name: &'static str)
        ensures
            name@ == "X-OC-MTime"@,
    {
        "X-OC-MTime"
    }

    /// Reads the header from the raw values that a request carries under its
    /// name: exactly one value, which is a decimal number.
    pub fn parse_header(data: &Vec<Vec<u8>>) -> (r: Result<XOcMTime, HeaderError>)
        ensures
            r is Ok <==> data@.len() == 1 && parsed_u64(data@[0]@) is Some,
            r is Ok ==> r->Ok_0.0 == parsed_u64(data@[0]@)->0,
    {
        if data.len() != 1 {
            return Err(HeaderError::Header);
        }
        match parse_u64(&data[0]) {
            Some(s) => Ok(XOcMTime(s)),
            None => Err(HeaderError::Header),
        }
    }
}

} // verus!
