//! Identities as the 128 bits of a UUID, and their text.

use crate::digest;
use vstd::arithmetic::power::pow;
use vstd::prelude::*;

verus! {

/// The hexadecimal digit of `x` at position `k`, counted from the front of 32.
pub open spec fn nibble(x: int, k: int) -> int {
    x / pow(16, (31 - k) as nat) % 16
}

/// How many hyphens stand before position `i` of the text.
pub open spec fn hyphens_before(i: int) -> int {
    if i < 8 {
        0
    } else if i < 13 {
        1
    } else if i < 18 {
        2
    } else if i < 23 {
        3
    } else {
        4
    }
}

/// Position `i` of the text holds a hyphen.
pub open spec fn is_hyphen(i: int) -> bool {
    i == 8 || i == 13 || i == 18 || i == 23
}

/// The hyphenated lower-case text of an identity: 8, 4, 4, 4 and 12
/// hexadecimal digits.
pub open spec fn uuid_text(x: u128) -> Seq<char> {
    Seq::new(
        36,
        |i: int|
            if is_hyphen(i) {
                '-'
            } else {
                digest::hex_digit(nibble(x as int, i - hyphens_before(i)))
            },
    )
}

/// The identity that a text stands for, in any of the forms that a UUID may be
/// written in.
pub uninterp spec fn parsed_uuid(text: Seq<char>) -> Option<u128>;

/// `uuid::Uuid::from_u128` and the `Display` of the result: the hyphenated
/// lower-case text.
#[verifier::external_body]
pub(crate) fn format_uuid(x: u128) -> (r: String)
    ensures
        r@ == uuid_text(x),
{
    uuid::Uuid::from_u128(x).to_string()
}

/// `uuid::Uuid::parse_str` and `uuid::Uuid::as_u128` of the result: what comes
/// out depends on the text alone, and the hyphenated lower-case text of an
/// identity gives that identity back. Which other texts are accepted is left
/// unsaid.
#[verifier::external_body]
pub(crate) fn parse_uuid(text: &str) -> (r: Option<u128>)
    ensures
        r == parsed_uuid(text@),
        forall|x: u128| text@ == #[trigger] uuid_text(x) ==> r == Some(x),
{
    uuid::Uuid::parse_str(text).ok().map(|id| id.as_u128())
}

/// The identity that a name has within the namespace of addresses.
pub uninterp spec fn url_identity(name: Seq<char>) -> u128;

/// `uuid::Uuid::new_v5` in `uuid::Uuid::NAMESPACE_URL`, and `uuid::Uuid::as_u128`
/// of the result: it depends on the name alone. How it comes out of the name is
/// left unsaid.
#[verifier::external_body]
pub(crate) fn url_uuid(name: &str) -> (r: u128)
    ensures
        r == url_identity(name@),
{
    uuid::Uuid::new_v5(&uuid::Uuid::NAMESPACE_URL, name.as_bytes()).as_u128()
}

/// The hexadecimal digit of `x` at position `j`, counted from the back.
spec fn digit_at(x: int, j: int) -> int {
    x / pow(16, j as nat) % 16
}

proof fn lemma_nibbles_determine(x: int, y: int, n: nat)
    requires
        0 <= x < pow(16, n),
        0 <= y < pow(16, n),
        forall|j: int| 0 <= j < n ==> #[trigger] digit_at(x, j) == digit_at(y, j),
    ensures
        x == y,
    decreases n,
{
    reveal(pow);
    assert(pow(16, 0) == 1);
    if n > 0 {
        assert(digit_at(x, 0) == digit_at(y, 0));
        let a = x / 16;
        let b = y / 16;
        assert(pow(16, n) == 16 * pow(16, (n - 1) as nat));
        assert forall|j: int| 0 <= j < n - 1 implies #[trigger] digit_at(a, j) == digit_at(
            b,
            j,
        ) by {
            let p = pow(16, j as nat);
            vstd::arithmetic::power::lemma_pow_positive(16, j as nat);
            assert(pow(16, (j + 1) as nat) == 16 * p);
            vstd::arithmetic::div_mod::lemma_div_denominator(x, 16, p);
            vstd::arithmetic::div_mod::lemma_div_denominator(y, 16, p);
            assert(digit_at(x, j + 1) == digit_at(y, j + 1));
        }
        lemma_nibbles_determine(a, b, (n - 1) as nat);
    }
}

/// Different identities have different texts.
pub proof fn law_uuid_text_is_injective(x: u128, y: u128)
    requires
        uuid_text(x) == uuid_text(y),
    ensures
        x == y,
{
    assert(pow(16, 32) == 0x1_0000_0000_0000_0000_0000_0000_0000_0000) by {
        reveal_with_fuel(pow, 33);
    }
    assert forall|j: int| 0 <= j < 32 implies #[trigger] digit_at(x as int, j) == digit_at(
        y as int,
        j,
    ) by {
        let k = 31 - j;
        let i = if k < 8 {
            k
        } else if k < 12 {
            k + 1
        } else if k < 16 {
            k + 2
        } else if k < 20 {
            k + 3
        } else {
            k + 4
        };
        assert(uuid_text(x)[i] == uuid_text(y)[i]);
        assert(i - hyphens_before(i) == k && !is_hyphen(i));
        let a = nibble(x as int, k);
        let b = nibble(y as int, k);
        assert(uuid_text(x)[i] == digest::hex_digit(a));
        assert(uuid_text(y)[i] == digest::hex_digit(b));
        digest::lemma_hex_digit(a);
        digest::lemma_hex_digit(b);
    }
    lemma_nibbles_determine(x as int, y as int, 32);
}

} // verus!
