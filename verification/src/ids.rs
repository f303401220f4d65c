//! Random identifiers.

use vstd::prelude::*;

verus! {

/// True iff the character is a hexadecimal digit in lower case.
pub open spec fn is_hex_digit(c: char) -> bool {
    '0' <= c <= '9' || 'a' <= c <= 'f'
}

/// True iff the text is a random identifier in its simple form: 32 hexadecimal digits, two of
/// which tell its version and its variant.
pub open spec fn is_simple_id(text: Seq<char>) -> bool {
    &&& text.len() == 32
    &&& forall|i: int| 0 <= i < 32 ==> is_hex_digit(#[trigger] text[i])
    &&& text[12] == '4'
    &&& (text[16] == '8' || text[16] == '9' || text[16] == 'a' || text[16] == 'b')
}

/// True iff the text is a random identifier in its hyphenated form: the digits of the simple form,
/// in groups.
pub open spec fn is_hyphenated_id(text: Seq<char>) -> bool {
    &&& text.len() == 36
    &&& text[8] == '-' && text[13] == '-' && text[18] == '-' && text[23] == '-'
    &&& is_simple_id(
        text.subrange(0, 8) + text.subrange(9, 13) + text.subrange(14, 18) + text.subrange(19, 23)
            + text.subrange(24, 36),
    )
}

/// `uuid::Uuid::new_v4` in its hyphenated text. Which digits it has is left to chance, but for
/// those of the version and the variant.
#[verifier::external_body]
pub(crate) fn new_hyphenated_id() -> (r: String)
    ensures
        is_hyphenated_id(r@),
{
    uuid::Uuid::new_v4().to_string()
}

/// `uuid::Uuid::new_v4` in its simple text. Which digits it has is left to chance, but for those
/// of the version and the variant.
#[verifier::external_body]
pub(crate) fn new_simple_id() -> (r: String)
    ensures
        is_simple_id(r@),
{
    uuid::Uuid::new_v4().simple().to_string()
}

} // verus!
