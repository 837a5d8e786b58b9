//! Small values that know how to write themselves as text.

use crate::text::{append, append_str, chars_of, dec_digits, decimal, digit, digit_char, string_of};
use vstd::prelude::*;

verus! {

/// The items of `items`, with `", "` between neighbours.
pub open spec fn comma_joined(items: Seq<String>) -> Seq<char>
    decreases items.len(),
{
    if items.len() == 0 {
        Seq::empty()
    } else if items.len() == 1 {
        items[0]@
    } else {
        comma_joined(items.drop_last()) + ", "@ + items.last()@
    }
}

/// A list that is written with commas between its items.
pub struct CommaList(pub Vec<String>);

impl CommaList {
    /// Writes the value as text.
    pub fn to_string(&self) -> (s: String)
        ensures
            s@ == comma_joined(self.0@),
    {
        let mut out: Vec<char> = Vec::new();
        let mut i: usize = 0;
        assert(self.0@.take(0) =~= Seq::<String>::empty());
        while i < self.0.len()
            invariant
                i <= self.0.len(),
                out@ == comma_joined(self.0@.take(i as int)),
            decreases self.0.len() - i,
        {
            if i != 0 {
                append_str(&mut out, ", ");
            }
            append_str(&mut out, self.0[i].as_str());
            i = i + 1;
            proof {
                let t = self.0@.take(i as int);
                assert(t.drop_last() =~= self.0@.take(i - 1));
                assert(t.last() == self.0@[i - 1]);
                if i == 1 {
                    assert(out@ =~= t[0]@);
                }
            }
        }
        assert(self.0@.take(i as int) =~= self.0@);
        string_of(&out)
    }
}

/// Three texts that are written one after the other.
pub struct DisplayThree(pub String, pub String, pub String);

impl DisplayThree {
    /// Writes the value as text.
    pub fn to_string(&self) -> (s: String)
        ensures
            s@ == self.0@ + self.1@ + self.2@,
    {
        let mut out: Vec<char> = Vec::new();
        append_str(&mut out, self.0.as_str());
        append_str(&mut out, self.1.as_str());
        append_str(&mut out, self.2.as_str());
        assert(out@ =~= self.0@ + self.1@ + self.2@);
        string_of(&out)
    }
}

/// A text that may be missing, and is then written as nothing.
pub struct Maybe(pub Option<String>);

impl Maybe {
    /// Writes the value as text.
    pub fn to_string(&self) -> (s: String)
        ensures
            s@ == match self.0 {
                Some(t) => t@,
                None => Seq::<char>::empty(),
            },
    {
        match &self.0 {
            Some(t) => t.clone(),
            None => String::new(),
        }
    }
}

/// `n` below a thousand, as three decimal digits.
pub open spec fn three_digits(n: nat) -> Seq<char> {
    seq![
        digit_char((n / 100) as int),
        digit_char(((n / 10) % 10) as int),
        digit_char((n % 10) as int),
    ]
}

/// A number of milliseconds, written as seconds with three decimals.
pub struct MsAsS(pub u64);

impl MsAsS {
    /// Writes the value as text.
    pub fn to_string(&self) -> (s: String)
        ensures
            s@ == dec_digits((self.0 / 1000) as nat) + seq!['.'] + three_digits(
                (self.0 % 1000) as nat,
            ),
    {
        let mut out = decimal(self.0 / 1000);
        let ms = self.0 % 1000;
        out.push('.');
        out.push(digit((ms / 100) as u8));
        out.push(digit(((ms / 10) % 10) as u8));
        out.push(digit((ms % 10) as u8));
        assert(out@ =~= dec_digits((self.0 / 1000) as nat) + seq!['.'] + three_digits(
            (self.0 % 1000) as nat,
        ));
        string_of(&out)
    }
}

/// `s` with every `"` replaced by `_`.
pub open spec fn without_double_quotes(s: Seq<char>) -> Seq<char> {
    Seq::new(
        s.len(),
        |i: int|
            if s[i] == '"' {
                '_'
            } else {
                s[i]
            },
    )
}

/// A text that is written with `_` in place of each `"`.
pub struct NoDoubleQuotes(pub String);

impl NoDoubleQuotes {
    /// Writes the value as text.
    pub fn to_string(&self) -> (s: String)
        ensures
            s@ == without_double_quotes(self.0@),
    {
        let src = chars_of(self.0.as_str());
        let mut out: Vec<char> = Vec::new();
        let mut i: usize = 0;
        while i < src.len()
            invariant
                i <= src.len(),
                src@ == self.0@,
                out@.len() == i,
                forall|j: int| 0 <= j < i ==> out@[j] == without_double_quotes(src@)[j],
            decreases src.len() - i,
        {
            let c = src[i];
            if c == '"' {
                out.push('_');
            } else {
                out.push(c);
            }
            i = i + 1;
        }
        assert(out@ =~= without_double_quotes(self.0@));
        string_of(&out)
    }
}

/// What stands for `c` where markup must not be read as such.
pub open spec fn html_literal(c: char) -> Seq<char> {
    if c == '&' {
        "&amp;"@
    } else if c == '<' {
        "&lt;"@
    } else {
        seq![c]
    }
}

/// `s` with `&` written as `&amp;` and `<` as `&lt;`.
pub open spec fn without_html(s: Seq<char>) -> Seq<char>
    decreases s.len(),
{
    if s.len() == 0 {
        Seq::empty()
    } else {
        without_html(s.drop_last()) + html_literal(s.last())
    }
}

/// Appends `without_html(src)` to `out`.
pub fn push_without_html(out: &mut Vec<char>, src: &Vec<char>)
    ensures
        final(out)@ == old(out)@ + without_html(src@),
{
    let mut i: usize = 0;
    assert(src@.take(0) =~= Seq::<char>::empty());
    assert(out@ =~= old(out)@ + without_html(src@.take(0)));
    while i < src.len()
        invariant
            i <= src.len(),
            out@ == old(out)@ + without_html(src@.take(i as int)),
        decreases src.len() - i,
    {
        let c = src[i];
        let ghost before = out@;
        if c == '&' {
            append_str(out, "&amp;");
        } else if c == '<' {
            append_str(out, "&lt;");
        } else {
            out.push(c);
            assert(out@ =~= before + seq![c]);
        }
        i = i + 1;
        proof {
            let t = src@.take(i as int);
            assert(t.drop_last() =~= src@.take(i - 1));
            assert(t.last() == c);
            assert(out@ =~= old(out)@ + without_html(t));
        }
    }
    assert(src@.take(i as int) =~= src@);
}

/// A text that is written so that a browser shows it as it stands.
pub struct NoHtmlLiteral(pub String);

impl NoHtmlLiteral {
    /// Writes the value as text.
    pub fn to_string(&self) -> (s: String)
        ensures
            s@ == without_html(self.0@),
    {
        let src = chars_of(self.0.as_str());
        let mut out: Vec<char> = Vec::new();
        push_without_html(&mut out, &src);
        assert(out@ =~= without_html(self.0@));
        string_of(&out)
    }
}

/// How many times `n` can be divided by 1024 before it falls below 1024.
pub open spec fn size_exponent(n: nat) -> nat
    decreases n,
{
    if n < 1024 {
        0
    } else {
        1 + size_exponent(n / 1024)
    }
}

/// 1024 to the power `e`.
pub open spec fn pow1024(e: nat) -> nat
    decreases e,
{
    if e == 0 {
        1
    } else {
        1024 * pow1024((e - 1) as nat)
    }
}

/// The name of the unit that is 1024 to the power `e` bytes.
pub open spec fn unit_name(e: nat) -> Seq<char> {
    if e == 0 {
        "B"@
    } else if e == 1 {
        "KiB"@
    } else if e == 2 {
        "MiB"@
    } else if e == 3 {
        "GiB"@
    } else if e == 4 {
        "TiB"@
    } else if e == 5 {
        "PiB"@
    } else {
        "EiB"@
    }
}

/// `n` bytes in the largest unit that does not exceed it, in tenths of that
/// unit, rounded to the nearest tenth with halves rounded up.
pub open spec fn size_tenths(n: nat) -> nat {
    let scale = pow1024(size_exponent(n));
    (n * 20 + scale) / (2 * scale)
}

/// A size as people read it: a whole number of bytes below 1024, else a
/// number with at most one decimal and a binary unit. A decimal of zero is
/// left out.
pub open spec fn human_readable(n: nat) -> Seq<char> {
    let tenths = size_tenths(n);
    let whole = dec_digits(tenths / 10);
    let number = if tenths % 10 == 0 {
        whole
    } else {
        whole + seq!['.', digit_char((tenths % 10) as int)]
    };
    number + seq![' '] + unit_name(size_exponent(n))
}

/// A number of bytes, written as people read sizes.
pub struct HumanReadableSize(pub u64);

impl HumanReadableSize {
    /// Writes the value as text.
    pub fn to_string(&self) -> (s: String)
        ensures
            s@ == human_readable(self.0 as nat),
    {
        let n = self.0;
        let mut rest: u64 = n;
        let mut scale: u64 = 1;
        let mut exp: u8 = 0;
        while rest >= 1024
            invariant
                size_exponent(n as nat) == exp + size_exponent(rest as nat),
                scale == pow1024(exp as nat),
                scale * rest <= n,
                n < scale * (rest + 1),
                scale >= 1,
                exp <= 6,
            decreases rest,
        {
            assert(scale * 1024 <= scale * rest) by (nonlinear_arith)
                requires
                    rest >= 1024,
                    scale >= 1,
            ;
            assert((scale * 1024) * (rest / 1024) <= scale * rest) by (nonlinear_arith)
                requires
                    rest >= 1024,
                    scale >= 1,
            ;
            assert(scale * (rest + 1) <= (scale * 1024) * (rest / 1024 + 1)) by (nonlinear_arith)
                requires
                    rest >= 1024,
                    scale >= 1,
            ;
            proof {
                if exp == 6 {
                    assert(pow1024(6) == 1152921504606846976) by {
                        reveal_with_fuel(pow1024, 7);
                    }
                    assert(false);
                }
            }
            scale = scale * 1024;
            rest = rest / 1024;
            exp = exp + 1;
        }
        let tenths: u128 = (n as u128 * 20 + scale as u128) / (2 * scale as u128);
        assert(tenths == size_tenths(n as nat));
        assert(tenths <= 10240) by (nonlinear_arith)
            requires
                tenths == (n as u128 * 20 + scale as u128) / (2 * scale as u128),
                scale >= 1,
                rest < 1024,
                n < scale * (rest + 1),
        ;
        let mut out = decimal((tenths / 10) as u64);
        if tenths % 10 != 0 {
            out.push('.');
            out.push(digit((tenths % 10) as u8));
        }
        out.push(' ');
        let unit = if exp == 0 {
            "B"
        } else if exp == 1 {
            "KiB"
        } else if exp == 2 {
            "MiB"
        } else if exp == 3 {
            "GiB"
        } else if exp == 4 {
            "TiB"
        } else if exp == 5 {
            "PiB"
        } else {
            "EiB"
        };
        append_str(&mut out, unit);
        assert(out@ =~= human_readable(n as nat));
        string_of(&out)
    }
}

/// `n` bytes as people read sizes.
pub fn human_readable_size(n: u64) -> (s: String)
    ensures
        s@ == human_readable(n as nat),
{
    HumanReadableSize(n).to_string()
}

/// Something that can add itself to the body of a page.
pub trait HtmlResponseElement {
    /// What `commit` appends.
    spec fn rendered(&self) -> Seq<char>;

    fn commit(self, data: &mut Vec<char>)
        ensures
            final(data)@ == old(data)@ + self.rendered(),
    ;
}

impl<'s> HtmlResponseElement for &'s str {
    open spec fn rendered(&self) -> Seq<char> {
        self@
    }

    fn commit(self, data: &mut Vec<char>) {
        append_str(data, self);
    }
}

impl HtmlResponseElement for String {
    open spec fn rendered(&self) -> Seq<char> {
        self@
    }

    fn commit(self, data: &mut Vec<char>) {
        append_str(data, self.as_str());
    }
}

impl HtmlResponseElement for Vec<char> {
    open spec fn rendered(&self) -> Seq<char> {
        self@
    }

    fn commit(self, data: &mut Vec<char>) {
        append(data, &self);
    }
}

} // verus!
