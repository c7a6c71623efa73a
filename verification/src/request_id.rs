//! Request identifiers: random 128-bit numbers, written as UUIDs.

use vstd::prelude::*;
use crate::bytes::big_endian;
use crate::encoding::hex_text;

verus! {

/// The text of an identifier: its 32 hexadecimal digits in lower case, in
/// groups of 8, 4, 4, 4 and 12 with a hyphen between them.
pub open spec fn token_text(id: u128) -> Seq<char> {
    let digits = hex_text(big_endian(id as nat, 16));
    digits.subrange(0, 8) + seq!['-'] + digits.subrange(8, 12) + seq!['-'] + digits.subrange(
        12,
        16,
    ) + seq!['-'] + digits.subrange(16, 20) + seq!['-'] + digits.subrange(20, 32)
}

/// The identifier that a text stands for, in any of the forms that
/// `uuid::Uuid::parse_str` reads; `None` for any other text.
pub uninterp spec fn token_value(text: Seq<char>) -> Option<u128>;

/// Calls `uuid::Uuid::new_v4` and `as_u128`. The number is random: nothing
/// is known of it.
#[verifier::external_body]
pub(crate) fn draw_uuid() -> u128 {
    uuid::Uuid::new_v4().as_u128()
}

/// Calls `uuid::Uuid::from_u128` and `to_string`, which writes the
/// hyphenated lower-case form, one that `parse_str` reads back.
#[verifier::external_body]
pub(crate) fn uuid_to_text(id: u128) -> (text: String)
    ensures
        text@ == token_text(id),
        token_value(text@) == Some(id),
{
    uuid::Uuid::from_u128(id).to_string()
}

/// Calls `uuid::Uuid::parse_str` and `as_u128`.
#[verifier::external_body]
pub(crate) fn uuid_from_text(text: &str) -> (id: Option<u128>)
    ensures
        id == token_value(text@),
{
    uuid::Uuid::parse_str(text).ok().map(|id| id.as_u128())
}

} // verus!
