//! What comes from outside the program: the time and chance.

use crate::text::{all_digits, digits_value, is_digit};
use vstd::prelude::*;

verus! {

/// A lower-case hexadecimal digit.
pub open spec fn is_hex_digit(c: char) -> bool {
    '0' <= c <= '9' || 'a' <= c <= 'f'
}

/// The text form of a random UUID: five groups of hexadecimal digits joined by
/// hyphens, with the digits of version and variant in their places.
pub open spec fn is_random_uuid(s: Seq<char>) -> bool {
    &&& s.len() == 36
    &&& s[8] == '-' && s[13] == '-' && s[18] == '-' && s[23] == '-'
    &&& s[14] == '4'
    &&& s[19] == '8' || s[19] == '9' || s[19] == 'a' || s[19] == 'b'
    &&& forall|i: int|
        0 <= i < 36 && i != 8 && i != 13 && i != 18 && i != 23 ==> is_hex_digit(#[trigger] s[i])
}

/// `Uuid::new_v4`, displayed. Which UUID it is, is left to chance; a machine
/// without a source of randomness ends the program.
#[verifier::external_body]
pub(crate) fn random_uuid() -> (r: String)
    ensures
        is_random_uuid(r@),
{
    uuid::Uuid::new_v4().to_string()
}

/// Whether the two characters at a position are digits that write a number in a
/// range.
pub open spec fn two_digits(s: Seq<char>, at: int, low: nat, high: nat) -> bool {
    &&& is_digit(s[at])
    &&& is_digit(s[at + 1])
    &&& low <= digits_value(seq![s[at], s[at + 1]]) <= high
}

/// A year since 1970: four digits or, from the year 10000 on, a plus and the digits.
pub open spec fn is_year(s: Seq<char>) -> bool {
    ||| s.len() == 4 && all_digits(s)
    ||| s.len() >= 6 && s[0] == '+' && all_digits(s.drop_first())
}

/// Month, day and time of day behind a year: `-MM-DDTHH:MM:SS`.
pub open spec fn is_month_to_second(s: Seq<char>) -> bool {
    &&& s.len() == 15
    &&& s[0] == '-' && two_digits(s, 1, 1, 12)
    &&& s[3] == '-' && two_digits(s, 4, 1, 31)
    &&& s[6] == 'T' && two_digits(s, 7, 0, 23)
    &&& s[9] == ':' && two_digits(s, 10, 0, 59)
    &&& s[12] == ':' && two_digits(s, 13, 0, 59)
}

/// The part of a second: nothing, or a point and milli-, micro- or nanoseconds.
pub open spec fn is_fraction(s: Seq<char>) -> bool {
    ||| s.len() == 0
    ||| (s.len() == 4 || s.len() == 7 || s.len() == 10) && s[0] == '.' && all_digits(s.drop_first())
}

/// A point in time in UTC, as RFC 3339 writes it: date, time, the part of a second
/// and the offset of UTC.
pub open spec fn is_utc_timestamp(s: Seq<char>) -> bool {
    exists|year: Seq<char>, clock: Seq<char>, fraction: Seq<char>|
        {
            &&& #[trigger] is_year(year)
            &&& #[trigger] is_month_to_second(clock)
            &&& #[trigger] is_fraction(fraction)
            &&& s == year + clock + fraction + "+00:00"@
        }
}

/// `Utc::now`, written by `DateTime::to_rfc3339` as a date and time of RFC 3339 with
/// the offset `+00:00`. Which time it is, is left open; a clock that is set to a time
/// before 1970, or too late to be a date, ends the program.
#[verifier::external_body]
pub(crate) fn current_timestamp() -> (r: String)
    ensures
        is_utc_timestamp(r@),
{
    chrono::Utc::now().to_rfc3339()
}

} // verus!
