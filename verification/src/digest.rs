//! SHA-256 digests and their hexadecimal text.

use sha2::Digest;
use vstd::prelude::*;
use crate::ids::is_hex_digit;

verus! {

/// The SHA-256 digest of a byte string.
pub uninterp spec fn sha256_of(bytes: Seq<u8>) -> Seq<u8>;

/// `sha2::Sha256::digest`: the 32 bytes of the digest, a function of the bytes alone.
#[verifier::external_body]
pub(crate) fn sha256(bytes: &[u8]) -> (r: [u8; 32])
    ensures
        r@ == sha256_of(bytes@),
{
    sha2::Sha256::digest(bytes).into()
}

/// True iff the text is a digest in hexadecimal: 64 digits in lower case.
pub open spec fn is_hash(text: Seq<char>) -> bool {
    text.len() == 64 && forall|i: int| 0 <= i < 64 ==> is_hex_digit(#[trigger] text[i])
}

/// The lower-case hexadecimal digit for `n` in `0..16`.
pub open spec fn hex_digit(n: int) -> char {
    if n < 10 {
        (n + 48) as char
    } else {
        (n + 87) as char
    }
}

/// The lower-case hexadecimal text of the bytes, two digits each, the high one first.
pub open spec fn hex(bytes: Seq<u8>) -> Seq<char> {
    Seq::new(
        2 * bytes.len(),
        |i: int|
            hex_digit(
                if i % 2 == 0 {
                    bytes[i / 2] as int / 16
                } else {
                    bytes[i / 2] as int % 16
                },
            ),
    )
}

/// The lower-case hexadecimal text of the bytes.
pub fn hex_text(bytes: &[u8]) -> (r: String)
    ensures
        r@ == hex(bytes@),
{
    let mut out = String::new();
    let mut i: usize = 0;
    while i < bytes.len()
        invariant
            i <= bytes@.len(),
            out@ =~= hex(bytes@).take(2 * i),
        decreases bytes@.len() - i,
    {
        let byte: u8 = bytes[i];
        out.push(hex_digit_of(byte / 16));
        out.push(hex_digit_of(byte % 16));
        proof {
            assert((2 * i) / 2 == i && (2 * i + 1) / 2 == i);
            assert((2 * i) % 2 == 0 && (2 * i + 1) % 2 == 1);
            assert(hex(bytes@).take(2 * (i + 1)) =~= hex(bytes@).take(2 * i).push(
                hex_digit(byte as int / 16),
            ).push(hex_digit(byte as int % 16)));
        }
        i = i + 1;
    }
    proof {
        assert(hex(bytes@).take(2 * bytes@.len() as int) =~= hex(bytes@));
    }
    out
}

proof fn digits_are_hexadecimal(bytes: Seq<u8>)
    ensures
        hex(bytes).len() == 2 * bytes.len(),
        forall|i: int| 0 <= i < hex(bytes).len() ==> is_hex_digit(#[trigger] hex(bytes)[i]),
{
    assert forall|i: int| 0 <= i < hex(bytes).len() implies is_hex_digit(#[trigger] hex(bytes)[i]) by {
        let byte = bytes[i / 2];
        let n = if i % 2 == 0 {
            byte as int / 16
        } else {
            byte as int % 16
        };
        assert(0 <= n < 16);
        assert(hex(bytes)[i] == hex_digit(n));
        if n < 10 {
            assert(hex_digit(n) as int == n + 48);
        } else {
            assert(hex_digit(n) as int == n + 87);
        }
    }
}

/// The SHA-256 digest of the bytes, in hexadecimal.
pub fn hash_text(bytes: &[u8]) -> (r: String)
    ensures
        r@ == hex(sha256_of(bytes@)),
        is_hash(r@),
{
    let digest: [u8; 32] = sha256(bytes);
    proof {
        digits_are_hexadecimal(digest@);
    }
    hex_text(digest.as_slice())
}

fn hex_digit_of(n: u8) -> (r: char)
    requires
        n < 16,
    ensures
        r == hex_digit(n as int),
{
    if n < 10 {
        (n + 48) as char
    } else {
        (n + 87) as char
    }
}

} // verus!
