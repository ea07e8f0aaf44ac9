//! Random credentials: bearer tokens and agent identifiers.

use base64::Engine as _;
use vstd::prelude::*;

verus! {

/// Random bytes in a bearer token.
pub const AUTH_TOKEN_BYTES: usize = 32;

/// Relies on rand::random: a value drawn from the thread's generator.
/// Nothing is promised of it.
pub assume_specification<T>[ rand::random::<T> ]() -> (r: T)
    where
        rand::distributions::Standard: rand::distributions::Distribution<T>,
;

/// The URL-safe base64 digit of a value below 64: `A`-`Z`, `a`-`z`, `0`-`9`,
/// `-`, `_`.
pub open spec fn url_digit(v: int) -> char {
    if v < 26 {
        ((65 + v) as u8) as char
    } else if v < 52 {
        ((71 + v) as u8) as char
    } else if v < 62 {
        ((v - 4) as u8) as char
    } else if v == 62 {
        '-'
    } else {
        '_'
    }
}

/// The URL-safe base64 encoding of a byte string, without padding: each
/// three bytes become four digits of six bits each, a final two bytes
/// three digits and a final byte two.
pub open spec fn base64_url(bs: Seq<u8>) -> Seq<char>
    decreases bs.len(),
{
    let b0 = if bs.len() > 0 { bs[0] as int } else { 0 };
    let b1 = if bs.len() > 1 { bs[1] as int } else { 0 };
    let b2 = if bs.len() > 2 { bs[2] as int } else { 0 };
    if bs.len() == 0 {
        Seq::empty()
    } else if bs.len() == 1 {
        seq![url_digit(b0 / 4), url_digit((b0 % 4) * 16)]
    } else if bs.len() == 2 {
        seq![url_digit(b0 / 4), url_digit((b0 % 4) * 16 + b1 / 16), url_digit((b1 % 16) * 4)]
    } else {
        seq![
            url_digit(b0 / 4),
            url_digit((b0 % 4) * 16 + b1 / 16),
            url_digit((b1 % 16) * 4 + b2 / 64),
            url_digit(b2 % 64),
        ] + base64_url(bs.subrange(3, bs.len() as int))
    }
}

/// An encoding of `n` bytes has `(4n + 2) / 3` digits.
pub proof fn lemma_base64_url_len(bs: Seq<u8>)
    ensures
        base64_url(bs).len() == (4 * bs.len() + 2) / 3,
    decreases bs.len(),
{
    if bs.len() > 2 {
        lemma_base64_url_len(bs.subrange(3, bs.len() as int));
    }
}

/// Relies on base64's `URL_SAFE_NO_PAD` engine: the URL-safe alphabet and
/// no padding, as `base64_url` states.
#[verifier::external_body]
fn encode_base64_url(bytes: &Vec<u8>) -> (r: String)
    ensures
        r@ == base64_url(bytes@),
{
    base64::engine::general_purpose::URL_SAFE_NO_PAD.encode(bytes)
}

/// `n` random bytes.
pub fn random_bytes(n: usize) -> (r: Vec<u8>)
    ensures
        r@.len() == n,
{
    let mut v: Vec<u8> = Vec::new();
    while v.len() < n
        invariant
            v@.len() <= n,
        decreases n - v@.len(),
    {
        v.push(rand::random::<u8>());
    }
    v
}

/// Whether a text is a bearer token: the encoding of `AUTH_TOKEN_BYTES` bytes.
pub open spec fn is_auth_token(t: Seq<char>) -> bool {
    exists|b: Seq<u8>| b.len() == AUTH_TOKEN_BYTES && t == #[trigger] base64_url(b)
}

/// A bearer token has 43 characters, so it is never empty.
pub proof fn lemma_auth_token_len(t: Seq<char>)
    requires
        is_auth_token(t),
    ensures
        t.len() == 43,
{
    let b = choose|b: Seq<u8>| b.len() == AUTH_TOKEN_BYTES && t == #[trigger] base64_url(b);
    lemma_base64_url_len(b);
}

/// A fresh random bearer token: `AUTH_TOKEN_BYTES` random bytes in URL-safe
/// base64 without padding.
pub fn generate_auth_token() -> (r: String)
    ensures
        is_auth_token(r@),
        r@.len() == 43,
{
    let bytes = random_bytes(AUTH_TOKEN_BYTES);
    let r = encode_base64_url(&bytes);
    proof { lemma_base64_url_len(bytes@); }
    r
}

/// Relies on uuid::Uuid::new_v4 and its `Display`: a random version-4 UUID
/// in the 36-character hyphenated form.
#[verifier::external_body]
pub fn new_uuid_v4() -> (r: String)
    ensures
        r@.len() == 36,
{
    uuid::Uuid::new_v4().to_string()
}

} // verus!
