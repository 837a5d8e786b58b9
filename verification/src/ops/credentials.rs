//! Credentials that the server makes up where it is to guard a path and is
//! given none.

use crate::ops::file::is_alphanumeric;
use crate::text::{chars_of, string_of};
use rand::Rng;
use vstd::prelude::*;

verus! {

/// The characters that a made-up password is drawn from.
pub open spec fn password_set() -> Seq<char> {
    "ABCDEFGHIJKLMNOPQRSTUVWXYZabcdefghijklmnopqrstuvwxyz0123456789~!@#$%^&*()_+`-=[]{}|;',./<>?"@
}

/// A number drawn at random from `low` up to, but not including, `high`, by
/// `rand::Rng::sample` on `Uniform::new(low, high)`, which does not take an
/// empty range.
#[verifier::external_body]
fn random_in(low: usize, high: usize) -> (r: usize)
    requires
        low < high,
    ensures
        low <= r < high,
{
    rand::thread_rng().sample(rand::distributions::uniform::Uniform::new(low, high))
}

/// A letter or digit of ASCII drawn at random, by `rand::Rng::sample` on
/// `Alphanumeric`.
#[verifier::external_body]
fn random_alphanumeric() -> (c: char)
    ensures
        is_alphanumeric(c),
{
    rand::thread_rng().sample(rand::distributions::Alphanumeric)
}

/// `text` is a user name of six to eleven letters and digits, a colon, and a
/// password of ten to twenty-four characters of `password_set`.
pub open spec fn made_up(text: Seq<char>) -> bool {
    exists|n: int|
        6 <= n < 12 && n + 11 <= text.len() < n + 26 && #[trigger] text[n] == ':' && (forall|
            i: int,
        |
            0 <= i < n ==> is_alphanumeric(#[trigger] text[i])) && (forall|i: int|
            n < i < text.len() ==> password_set().contains(#[trigger] text[i]))
}

/// Draws a user name and a password from the characters `set`.
pub fn auth_data_from(set: &Vec<char>) -> (r: String)
    requires
        set@.len() > 0,
    ensures
        exists|n: int|
            6 <= n < 12 && n + 11 <= r@.len() < n + 26 && #[trigger] r@[n] == ':' && (forall|
                i: int,
            |
                0 <= i < n ==> is_alphanumeric(#[trigger] r@[i])) && (forall|i: int|
                n < i < r@.len() ==> set@.contains(#[trigger] r@[i])),
{
    let username_len = random_in(6, 12);
    let password_len = random_in(10, 25);
    let mut out: Vec<char> = Vec::new();
    let mut i: usize = 0;
    while i < username_len
        invariant
            i <= username_len,
            out@.len() == i,
            forall|j: int| 0 <= j < i ==> is_alphanumeric(#[trigger] out@[j]),
        decreases username_len - i,
    {
        out.push(random_alphanumeric());
        i = i + 1;
    }
    out.push(':');
    let mut k: usize = 0;
    while k < password_len
        invariant
            k <= password_len,
            password_len < 25,
            username_len < 12,
            set@.len() > 0,
            out@.len() == username_len + 1 + k,
            out@[username_len as int] == ':',
            forall|j: int| 0 <= j < username_len ==> is_alphanumeric(#[trigger] out@[j]),
            forall|j: int| username_len < j < out@.len() ==> set@.contains(#[trigger] out@[j]),
        decreases password_len - k,
    {
        let pick = random_in(0, set.len());
        out.push(set[pick]);
        assert(set@.contains(set@[pick as int]));
        k = k + 1;
    }
    let r = string_of(&out);
    assert(r@[username_len as int] == ':');
    r
}

/// Makes up a user name and a password, with a colon between them.
pub fn generate_auth_data() -> (r: String)
    ensures
        made_up(r@),
{
    let set = chars_of(
        "ABCDEFGHIJKLMNOPQRSTUVWXYZabcdefghijklmnopqrstuvwxyz0123456789~!@#$%^&*()_+`-=[]{}|;',./<>?",
    );
    proof {
        reveal_strlit(
            "ABCDEFGHIJKLMNOPQRSTUVWXYZabcdefghijklmnopqrstuvwxyz0123456789~!@#$%^&*()_+`-=[]{}|;',./<>?",
        );
    }
    auth_data_from(&set)
}

} // verus!
