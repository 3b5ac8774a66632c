//! Version-4 UUIDs, held as the 128-bit integer that `uuid::Uuid::as_u128`
//! gives, and their text form.
use vstd::prelude::*;

verus! {

/// The lower-case hexadecimal digit for `n < 16`.
pub open spec fn hex_digit(n: u128) -> char {
    if n < 10 {
        (48 + n) as char
    } else {
        (87 + n) as char
    }
}

/// The `j`-th hexadecimal digit of `id`, counted from the most significant.
pub open spec fn uuid_nibble(id: u128, j: int) -> u128 {
    (id >> ((124 - 4 * j) as u128)) & 15
}

/// Which digit of the 32 stands at position `p` of the hyphenated text.
pub open spec fn digit_at(p: int) -> int {
    if p < 8 {
        p
    } else if p < 13 {
        p - 1
    } else if p < 18 {
        p - 2
    } else if p < 23 {
        p - 3
    } else {
        p - 4
    }
}

/// The hyphenated lower-case text of a UUID: 8-4-4-4-12 hexadecimal digits.
pub open spec fn uuid_text(id: u128) -> Seq<char> {
    Seq::new(
        36,
        |p: int|
            if p == 8 || p == 13 || p == 18 || p == 23 {
                '-'
            } else {
                hex_digit(uuid_nibble(id, digit_at(p)))
            },
    )
}

/// What `uuid::Uuid::parse_str` makes of a text: the UUID's integer, or
/// `None` where the text is none of the formats that it accepts.
pub uninterp spec fn uuid_parse(text: Seq<char>) -> Option<u128>;

/// `uuid::Uuid::new_v4()`, as an integer. The value is random: nothing is
/// claimed of it.
#[verifier::external_body]
pub(crate) fn new_random_uuid() -> (id: u128) {
    uuid::Uuid::new_v4().as_u128()
}

/// `uuid::Uuid::to_string` (its `Display`), which writes the hyphenated
/// lower-case form; `parse_str` reads that form back.
#[verifier::external_body]
pub(crate) fn uuid_to_string(id: u128) -> (text: String)
    ensures
        text@ == uuid_text(id),
        uuid_parse(text@) == Some(id),
{
    uuid::Uuid::from_u128(id).to_string()
}

/// `uuid::Uuid::parse_str`, with the error dropped.
#[verifier::external_body]
pub(crate) fn parse_uuid(text: &str) -> (id: Option<u128>)
    ensures
        id == uuid_parse(text@),
{
    match uuid::Uuid::parse_str(text) {
        Ok(parsed) => Some(parsed.as_u128()),
        Err(_) => None,
    }
}

} // verus!
