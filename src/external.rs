//! The calls into std and into outside crates that the library relies on,
//! each with the contract that the verified code believes.
use vstd::prelude::*;

use crate::text::digit_char;

verus! {

/// Relies on `String::push`: the character is appended at the end.
#[verifier::external_body]
pub(crate) fn push_char(s: &mut String, c: char)
    ensures
        final(s)@ == old(s)@.push(c),
{
    s.push(c)
}

/// The lower-case hexadecimal digit of `d`, below 16.
pub open spec fn hex_char(d: nat) -> char {
    if d < 10 {
        digit_char(d)
    } else {
        ((d + 87) as u32) as char
    }
}

/// The `k` lowest hexadecimal digits of `v`, the most significant first.
pub open spec fn hex_digits(v: nat, k: nat) -> Seq<char>
    decreases k,
{
    if k == 0 {
        Seq::empty()
    } else {
        hex_digits(v / 16, (k - 1) as nat).push(hex_char(v % 16))
    }
}

/// The hyphenated form of the UUID `v`: its 32 hexadecimal digits, most
/// significant first, in groups of 8, 4, 4, 4 and 12.
pub open spec fn uuid_text(v: u128) -> Seq<char> {
    let h = hex_digits(v as nat, 32);
    h.subrange(0, 8) + seq!['-'] + h.subrange(8, 12) + seq!['-'] + h.subrange(12, 16) + seq!['-']
        + h.subrange(16, 20) + seq!['-'] + h.subrange(20, 32)
}

/// Relies on uuid's `Uuid::from_u128` (the value's big-endian bytes) and on
/// the `Display` of `Hyphenated`, which writes those bytes as lower-case
/// hexadecimal digits in groups of 8, 4, 4, 4 and 12.
#[verifier::external_body]
pub(crate) fn uuid_to_text(v: u128) -> (r: String)
    ensures
        r@ == uuid_text(v),
{
    uuid::Uuid::from_u128(v).hyphenated().to_string()
}

/// What uuid's `Uuid::parse_str` reads from a text, as a 128-bit value;
/// `None` where it reports an error.
pub uninterp spec fn uuid_of(s: Seq<char>) -> Option<u128>;

/// Relies on uuid's `Uuid::parse_str`, which accepts the simple, hyphenated,
/// braced and URN forms, and on `Uuid::as_u128` for the value of its bytes.
#[verifier::external_body]
pub(crate) fn parse_uuid(s: &str) -> (r: Option<u128>)
    ensures
        r == uuid_of(s@),
{
    match uuid::Uuid::parse_str(s) {
        Ok(u) => Some(u.as_u128()),
        Err(_) => None,
    }
}

/// What chrono's `NaiveDateTime::parse_from_str` reads from the text `s`
/// under the format `fmt`, as seconds since 1970-01-01 00:00:00; `None`
/// where it reports an error.
pub uninterp spec fn naive_seconds(s: Seq<char>, fmt: Seq<char>) -> Option<i64>;

/// Relies on chrono's `NaiveDateTime::parse_from_str`, and on
/// `and_utc().timestamp()` for the seconds of the date and time it read.
#[verifier::external_body]
pub(crate) fn parse_naive_seconds(s: &str, fmt: &str) -> (r: Option<i64>)
    ensures
        r == naive_seconds(s@, fmt@),
{
    match chrono::NaiveDateTime::parse_from_str(s, fmt) {
        Ok(t) => Some(t.and_utc().timestamp()),
        Err(_) => None,
    }
}

} // verus!
