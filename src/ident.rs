//! Entity identifiers: 128-bit values, read from text by the `uuid` crate
//! and drawn at random for new rows.

use vstd::prelude::*;

verus! {

/// The identifier that the `uuid` crate reads from a text, if the text is one
/// of its accepted forms (hyphenated, simple, braced or urn).
pub uninterp spec fn uuid_from_text(s: Seq<char>) -> Option<u128>;

/// A hexadecimal digit, in either case.
pub open spec fn is_hex_digit(c: char) -> bool {
    ('0' as u32 <= c as u32 <= '9' as u32) || ('a' as u32 <= c as u32 <= 'f' as u32) || ('A' as u32
        <= c as u32 <= 'F' as u32)
}

/// The value of a hexadecimal digit.
pub open spec fn hex_digit_value(c: char) -> nat {
    if '0' as u32 <= c as u32 <= '9' as u32 {
        (c as u32 - '0' as u32) as nat
    } else if 'a' as u32 <= c as u32 <= 'f' as u32 {
        (c as u32 - 'a' as u32 + 10) as nat
    } else {
        (c as u32 - 'A' as u32 + 10) as nat
    }
}

/// The canonical hyphenated form: 36 characters, hyphens at 8, 13, 18 and
/// 23, and a hexadecimal digit everywhere else.
pub open spec fn is_hyphenated(s: Seq<char>) -> bool {
    &&& s.len() == 36
    &&& forall|i: int|
        0 <= i < 36 ==> if i == 8 || i == 13 || i == 18 || i == 23 {
            s[i] == '-'
        } else {
            is_hex_digit(#[trigger] s[i])
        }
}

/// The number that the digits of `s` spell, most significant first; hyphens
/// are skipped.
pub open spec fn hex_number(s: Seq<char>) -> nat
    decreases s.len(),
{
    if s.len() == 0 {
        0
    } else if s.last() == '-' {
        hex_number(s.drop_last())
    } else {
        16 * hex_number(s.drop_last()) + hex_digit_value(s.last())
    }
}

/// Relies on `uuid::Uuid::parse_str` and `Uuid::as_u128`: the identifier, as
/// a big-endian integer, that the text spells, or none where it spells none.
/// Text in the canonical hyphenated form is read digit by digit.
#[verifier::external_body]
pub(crate) fn parse_identifier(s: &str) -> (r: Option<u128>)
    ensures
        r == uuid_from_text(s@),
        is_hyphenated(s@) ==> r == Some(hex_number(s@) as u128),
{
    uuid::Uuid::parse_str(s).ok().map(|u| u.as_u128())
}

/// Relies on `uuid::Uuid::new_v4`: a fresh random identifier. Nothing is
/// known of its value, so callers must handle one that is already taken.
#[verifier::external_body]
pub(crate) fn fresh_identifier() -> (r: u128) {
    uuid::Uuid::new_v4().as_u128()
}

} // verus!
