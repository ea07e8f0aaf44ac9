//! Certificate fingerprints: the SHA-256 digest of a certificate, written as
//! upper-case hexadecimal bytes separated by colons.

use sha2::{Digest, Sha256};
use vstd::prelude::*;

verus! {

/// The SHA-256 digest of a byte string.
pub uninterp spec fn sha256_of(bytes: Seq<u8>) -> Seq<u8>;

/// Relies on sha2::Sha256: the 32-byte digest of the input.
#[verifier::external_body]
fn sha256(bytes: &Vec<u8>) -> (r: Vec<u8>)
    ensures
        r@ == sha256_of(bytes@),
        r@.len() == 32,
{
    Sha256::digest(bytes).to_vec()
}

/// The upper-case hexadecimal digit of a value below sixteen.
pub open spec fn hex_digit(d: u8) -> char {
    if d < 10 {
        ((48 + d) as u8) as char
    } else {
        ((55 + d) as u8) as char
    }
}

/// Bytes as upper-case hexadecimal pairs separated by colons.
pub open spec fn colon_hex(bytes: Seq<u8>) -> Seq<char>
    decreases bytes.len(),
{
    if bytes.len() == 0 {
        Seq::empty()
    } else {
        let b = bytes.last();
        let pair = seq![hex_digit(b / 16), hex_digit(b % 16)];
        if bytes.len() == 1 {
            pair
        } else {
            colon_hex(bytes.drop_last()) + seq![':'] + pair
        }
    }
}

fn hex_char(d: u8) -> (c: char)
    requires
        d < 16,
    ensures
        c == hex_digit(d),
{
    if d < 10 {
        (48 + d) as char
    } else {
        (55 + d) as char
    }
}

/// Writes bytes as upper-case hexadecimal pairs separated by colons.
pub fn format_fingerprint(bytes: &Vec<u8>) -> (r: String)
    ensures
        r@ == colon_hex(bytes@),
{
    let mut s = String::new();
    let mut i: usize = 0;
    while i < bytes.len()
        invariant
            i <= bytes@.len(),
            s@ == colon_hex(bytes@.subrange(0, i as int)),
        decreases bytes@.len() - i,
    {
        let b = bytes[i];
        proof {
            assert(bytes@.subrange(0, i + 1).drop_last() =~= bytes@.subrange(0, i as int));
        }
        if i > 0 {
            s.push(':');
        }
        s.push(hex_char(b / 16));
        s.push(hex_char(b % 16));
        i = i + 1;
    }
    assert(bytes@.subrange(0, bytes@.len() as int) =~= bytes@);
    s
}

/// The fingerprint of a DER-encoded certificate.
pub fn calculate_fingerprint(cert_der: &Vec<u8>) -> (r: String)
    ensures
        r@ == colon_hex(sha256_of(cert_der@)),
{
    let digest = sha256(cert_der);
    format_fingerprint(&digest)
}

/// The first eight bytes of a fingerprint, for display.
pub fn fingerprint_short(fingerprint: &str) -> (r: String)
    ensures
        fingerprint@.len() <= 23 ==> r@ == fingerprint@,
        fingerprint@.len() > 23 ==> r@ == fingerprint@.subrange(0, 23),
{
    let n = fingerprint.unicode_len();
    let end = if n < 23 { n } else { 23 };
    let s = fingerprint.substring_char(0, end);
    assert(fingerprint@.len() <= 23 ==> fingerprint@.subrange(0, end as int) =~= fingerprint@);
    String::from_str(s)
}

} // verus!
