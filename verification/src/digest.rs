//! SHA-256 digests and their hexadecimal text.

use sha2::{Digest, Sha256};
use vstd::prelude::*;

verus! {

/// The SHA-256 digest of some bytes.
pub uninterp spec fn sha256(bytes: Seq<u8>) -> Seq<u8>;

/// `sha2::Sha256::digest`: 32 bytes that depend on the input alone.
#[verifier::external_body]
fn sha256_digest(bytes: &[u8]) -> (r: Vec<u8>)
    ensures
        r@ == sha256(bytes@),
        r@.len() == 32,
{
    Sha256::digest(bytes).to_vec()
}

/// The lower-case hexadecimal digit of a number below sixteen.
pub open spec fn hex_digit(n: int) -> char {
    if n < 10 {
        (48 + n) as char
    } else {
        (87 + n) as char
    }
}

/// The lower-case hexadecimal text of some bytes, two digits each.
pub open spec fn hex(bytes: Seq<u8>) -> Seq<char> {
    Seq::new(
        2 * bytes.len(),
        |i: int|
            hex_digit(
                if i % 2 == 0 {
                    bytes[i / 2] as int / 16
                } else {
                    bytes[i / 2] as int % 16
                },
            ),
    )
}

/// The hexadecimal text of the digest of some bytes.
pub open spec fn sha256_text(bytes: Seq<u8>) -> Seq<char> {
    hex(sha256(bytes))
}

fn hex_char(n: u8) -> (r: char)
    requires
        n < 16,
    ensures
        r == hex_digit(n as int),
{
    if n < 10 {
        (48 + n) as char
    } else {
        (87 + n) as char
    }
}

/// The lower-case hexadecimal text of some bytes.
#[must_use]
pub fn hex_of(bytes: &[u8]) -> (r: String)
    ensures
        r@ == hex(bytes@),
{
    let mut out = String::new();
    let mut i: usize = 0;
    while i < bytes.len()
        invariant
            i <= bytes.len(),
            out@ == hex(bytes@.take(i as int)),
        decreases bytes.len() - i,
    {
        let b: u8 = bytes[i];
        out.push(hex_char(b / 16));
        out.push(hex_char(b % 16));
        assert(out@ =~= hex(bytes@.take(i + 1)));
        i += 1;
    }
    assert(bytes@.take(i as int) =~= bytes@);
    out
}

/// The lower-case hexadecimal SHA-256 of some bytes.
#[must_use]
pub fn sha256_hex(bytes: &[u8]) -> (r: String)
    ensures
        r@ == sha256_text(bytes@),
        r@.len() == 64,
{
    let digest = sha256_digest(bytes);
    hex_of(digest.as_slice())
}

/// Different bytes have different hexadecimal texts.
pub proof fn law_hex_is_injective(a: Seq<u8>, b: Seq<u8>)
    requires
        hex(a) == hex(b),
    ensures
        a == b,
{
    assert(hex(a).len() == 2 * a.len() && hex(b).len() == 2 * b.len());
    assert forall|i: int| 0 <= i < a.len() implies a[i] == b[i] by {
        let x = a[i] as int;
        let y = b[i] as int;
        assert((2 * i + 1) / 2 == i && (2 * i + 1) % 2 == 1 && (2 * i) / 2 == i && (2 * i) % 2
            == 0);
        assert(hex(a)[2 * i] == hex_digit(x / 16));
        assert(hex(b)[2 * i] == hex_digit(y / 16));
        assert(hex(a)[2 * i + 1] == hex_digit(x % 16));
        assert(hex(b)[2 * i + 1] == hex_digit(y % 16));
        lemma_hex_digit(x / 16);
        lemma_hex_digit(y / 16);
        lemma_hex_digit(x % 16);
        lemma_hex_digit(y % 16);
        assert(x == y);
    }
    assert(a =~= b);
}

/// A hexadecimal digit tells which number it stands for.
pub proof fn lemma_hex_digit(n: int)
    requires
        0 <= n < 16,
    ensures
        hex_digit(n) as int == if n < 10 {
            48 + n
        } else {
            87 + n
        },
{
}

/// Each byte is written as its high and then its low hexadecimal digit, `0` to
/// `9` and `a` to `f`.
pub proof fn law_bytes_are_written_high_digit_first(bytes: Seq<u8>, i: int, high: int, low: int)
    requires
        0 <= i < bytes.len(),
        0 <= high < 16,
        0 <= low < 16,
        bytes[i] == 16 * high + low,
    ensures
        hex(bytes).len() == 2 * bytes.len(),
        high < 10 ==> hex(bytes)[2 * i] as int == '0' as int + high,
        high >= 10 ==> hex(bytes)[2 * i] as int == 'a' as int + (high - 10),
        low < 10 ==> hex(bytes)[2 * i + 1] as int == '0' as int + low,
        low >= 10 ==> hex(bytes)[2 * i + 1] as int == 'a' as int + (low - 10),
{
    assert((2 * i + 1) / 2 == i && (2 * i + 1) % 2 == 1 && (2 * i) / 2 == i && (2 * i) % 2 == 0);
    lemma_hex_digit(high);
    lemma_hex_digit(low);
}

} // verus!
