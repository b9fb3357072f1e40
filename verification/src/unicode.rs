//! What Unicode says about characters, as the standard library and the Unicode
//! crates tell it.

use unicode_general_category::{get_general_category, GeneralCategory};
use unicode_normalization::UnicodeNormalization;
use vstd::prelude::*;

verus! {

/// Normalization form KC of a text.
pub uninterp spec fn nfkc_form(text: Seq<char>) -> Seq<char>;

/// Whether a character has general category `Format`.
pub uninterp spec fn is_format(c: char) -> bool;

/// Whether a character has general category `Control`.
pub open spec fn is_control(c: char) -> bool {
    c <= '\u{1f}' || '\u{7f}' <= c <= '\u{9f}'
}

/// Whether a character has the property `White_Space`.
pub open spec fn is_space(c: char) -> bool {
    ||| '\u{9}' <= c <= '\u{d}'
    ||| c == ' '
    ||| c == '\u{85}'
    ||| c == '\u{a0}'
    ||| c == '\u{1680}'
    ||| '\u{2000}' <= c <= '\u{200a}'
    ||| c == '\u{2028}'
    ||| c == '\u{2029}'
    ||| c == '\u{202f}'
    ||| c == '\u{205f}'
    ||| c == '\u{3000}'
}

/// The lower-case mapping of a character.
pub uninterp spec fn lower_case(c: char) -> Seq<char>;

/// `unicode_normalization::UnicodeNormalization::nfkc` on a text, collected:
/// it depends on the text alone.
#[verifier::external_body]
pub(crate) fn nfkc(text: &str) -> (r: Vec<char>)
    ensures
        r@ == nfkc_form(text@),
{
    text.nfkc().collect()
}

/// `unicode_general_category::get_general_category`, compared with `Format`:
/// it depends on the character alone.
#[verifier::external_body]
pub(crate) fn format_char(c: char) -> (r: bool)
    ensures
        r == is_format(c),
{
    matches!(get_general_category(c), GeneralCategory::Format)
}

/// Whether a character has general category `Control`.
pub(crate) fn control_char(c: char) -> (r: bool)
    ensures
        r == is_control(c),
{
    c <= '\u{1f}' || ('\u{7f}' <= c && c <= '\u{9f}')
}

/// Whether a character has the property `White_Space`.
pub(crate) fn space_char(c: char) -> (r: bool)
    ensures
        r == is_space(c),
{
    ('\u{9}' <= c && c <= '\u{d}') || c == ' ' || c == '\u{85}' || c == '\u{a0}' || c
        == '\u{1680}' || ('\u{2000}' <= c && c <= '\u{200a}') || c == '\u{2028}' || c
        == '\u{2029}' || c == '\u{202f}' || c == '\u{205f}' || c == '\u{3000}'
}

/// `char::to_lowercase`, collected: it depends on the character alone.
#[verifier::external_body]
pub(crate) fn lower_chars(c: char) -> (r: Vec<char>)
    ensures
        r@ == lower_case(c),
{
    c.to_lowercase().collect()
}

/// A text with nothing in it but white space.
pub open spec fn blank(text: Seq<char>) -> bool {
    forall|i: int| 0 <= i < text.len() ==> is_space(#[trigger] text[i])
}

/// Whether nothing is left of a text when white space is trimmed.
pub fn is_blank(text: &str) -> (r: bool)
    ensures
        r == blank(text@),
{
    let chars = crate::text::chars_of(text);
    let mut i: usize = 0;
    while i < chars.len()
        invariant
            i <= chars@.len(),
            chars@ == text@,
            forall|j: int| 0 <= j < i ==> is_space(#[trigger] text@[j]),
        decreases chars.len() - i,
    {
        if !space_char(chars[i]) {
            assert(!is_space(text@[i as int]));
            return false;
        }
        i += 1;
    }
    true
}

/// White space and control characters by their code points.
pub proof fn law_spaces_and_controls_by_code_point(c: char)
    ensures
        is_space(c) <==> 9 <= c as int <= 13 || c as int == 0x20 || c as int == 0x85 || c as int
            == 0xa0 || c as int == 0x1680 || 0x2000 <= c as int <= 0x200a || c as int == 0x2028 || c
            as int == 0x2029 || c as int == 0x202f || c as int == 0x205f || c as int == 0x3000,
        is_control(c) <==> c as int <= 0x1f || 0x7f <= c as int <= 0x9f,
{
}

/// A text is blank exactly where no character of it can be seen between spaces.
pub proof fn law_blank_texts_hold_only_space(text: Seq<char>, c: char)
    ensures
        blank(Seq::empty()),
        blank(text.push(c)) <==> blank(text) && is_space(c),
{
    let more = text.push(c);
    if blank(more) {
        assert forall|i: int| 0 <= i < text.len() implies is_space(#[trigger] text[i]) by {
            assert(more[i] == text[i]);
        }
        assert(is_space(more[text.len() as int]));
    }
}

} // verus!
