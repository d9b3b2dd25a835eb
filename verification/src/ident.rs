//! UUIDs as 128-bit numbers, and the texts that stand for them.

use crate::storage::bundle::hex_digit;
use uuid::Uuid;
use vstd::arithmetic::power::pow;
use vstd::prelude::*;

verus! {

/// What `uuid::Uuid::parse_str` reads from a text: the UUID as a 128-bit number,
/// or what its error says.
pub uninterp spec fn uuid_parsed(text: Seq<char>) -> Result<u128, Seq<char>>;

/// The UUID that a text stands for, if it stands for one.
pub open spec fn uuid_of_text(text: Seq<char>) -> Option<u128> {
    match uuid_parsed(text) {
        Ok(id) => Some(id),
        Err(_) => None,
    }
}

/// What is wrong with a text that does not stand for a UUID.
pub open spec fn uuid_error(text: Seq<char>) -> Seq<char> {
    match uuid_parsed(text) {
        Ok(_) => seq![],
        Err(m) => m,
    }
}

/// Digits `from` up to `to` of the 32 hexadecimal digits of a UUID, the highest
/// first.
pub open spec fn uuid_digits(id: u128, from: int, to: int) -> Seq<char> {
    Seq::new(
        (to - from) as nat,
        |i: int| hex_digit((id as int / pow(16, (31 - from - i) as nat)) % 16),
    )
}

/// The text of a UUID: its digits in lower case, in groups of eight, four, four,
/// four and twelve, with hyphens in between.
pub open spec fn uuid_text(id: u128) -> Seq<char> {
    uuid_digits(id, 0, 8) + seq!['-'] + uuid_digits(id, 8, 12) + seq!['-'] + uuid_digits(id, 12, 16)
        + seq!['-'] + uuid_digits(id, 16, 20) + seq!['-'] + uuid_digits(id, 20, 32)
}

/// `uuid::Uuid::parse_str`, with the UUID as a 128-bit number and the error as
/// the text that it displays.
#[verifier::external_body]
pub(crate) fn parse_uuid(text: &str) -> (id: Result<u128, String>)
    ensures
        match id {
            Ok(n) => uuid_parsed(text@) == Ok::<u128, Seq<char>>(n),
            Err(m) => uuid_parsed(text@) == Err::<u128, Seq<char>>(m@),
        },
{
    Uuid::parse_str(text).map(|u| u.as_u128()).map_err(|e| e.to_string())
}

/// `Uuid::to_string` on the UUID of a 128-bit number: hyphenated lower-case
/// hexadecimal digits, which `parse_str` reads back.
#[verifier::external_body]
pub(crate) fn format_uuid(id: u128) -> (text: String)
    ensures
        text@ == uuid_text(id),
        uuid_of_text(text@) == Some(id),
{
    Uuid::from_u128(id).to_string()
}

/// `Uuid::new_v4`: a random UUID. Nothing is said of its value.
#[verifier::external_body]
pub(crate) fn random_uuid() -> (id: u128) {
    Uuid::new_v4().as_u128()
}

} // verus!
