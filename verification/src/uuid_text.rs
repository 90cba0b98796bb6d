//! Textual UUIDs, parsed and printed by the `uuid` crate.

use vstd::prelude::*;

verus! {

/// The 128-bit value that `uuid::Uuid::parse_str` yields for `text`, or `None` where it
/// reports an error.
pub uninterp spec fn uuid_parse_value(text: Seq<char>) -> Option<u128>;

/// The lower-case hexadecimal digit of `n` (below 16).
pub open spec fn hex_digit(n: int) -> char {
    if n < 10 {
        (48 + n) as char
    } else {
        (87 + n) as char
    }
}

/// Hexadecimal digit `d` of `value`, counting from the most significant one.
pub open spec fn uuid_nibble(value: u128, d: int) -> int {
    (value as int / vstd::arithmetic::power::pow(16, (31 - d) as nat)) % 16
}

/// Which hexadecimal digit stands at position `i` of hyphenated text.
pub open spec fn uuid_digit_index(i: int) -> int {
    if i < 8 {
        i
    } else if i < 13 {
        i - 1
    } else if i < 18 {
        i - 2
    } else if i < 23 {
        i - 3
    } else {
        i - 4
    }
}

/// The hyphenated, lower-case text of a UUID's value: its 32 hexadecimal digits, most
/// significant first, with hyphens after the 8th, 12th, 16th and 20th.
pub open spec fn uuid_hyphenated_text(value: u128) -> Seq<char> {
    Seq::new(36, |i: int| if i == 8 || i == 13 || i == 18 || i == 23 {
        '-'
    } else {
        hex_digit(uuid_nibble(value, uuid_digit_index(i)))
    })
}

/// Calls `uuid::Uuid::parse_str` and keeps the parsed 128-bit value.
/// Claimed: the result is `uuid_parse_value` of the input text, which depends on the text alone.
#[verifier::external_body]
pub(crate) fn parse_uuid(text: &str) -> (r: Option<u128>)
    ensures
        r == uuid_parse_value(text@),
{
    match uuid::Uuid::parse_str(text) {
        Ok(id) => Some(id.as_u128()),
        Err(_) => None,
    }
}

/// Calls `Display` of `uuid::Uuid::from_u128(value)`.
/// Claimed: the text is the hyphenated, lower-case hexadecimal text of the value (the
/// big-endian bytes of `from_u128`, written two digits each by `format_hyphenated`), and
/// `uuid::Uuid::parse_str` reads that text back as the same value.
#[verifier::external_body]
pub(crate) fn format_uuid(value: u128) -> (r: String)
    ensures
        r@ == uuid_hyphenated_text(value),
        uuid_parse_value(r@) == Some(value),
{
    uuid::Uuid::from_u128(value).to_string()
}

} // verus!
