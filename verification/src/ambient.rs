//! What a signature takes from the machine: the current time and a fresh
//! nonce. Their values are not known beforehand; their layout is.
use vstd::prelude::*;

verus! {

/// The format of a timestamp: the UTC date and time to the second, followed
/// by the fixed offset `+0000`.
pub open spec fn timestamp_format() -> Seq<char> {
    "%Y%m%dT%H:%M:%S+0000"@
}

/// A decimal digit.
pub open spec fn is_digit(c: char) -> bool {
    '0' <= c && c <= '9'
}

/// A digit of lowercase hexadecimal.
pub open spec fn is_lower_hex(c: char) -> bool {
    is_digit(c) || ('a' <= c && c <= 'f')
}

/// The layout of the date and time behind the year: `MMDDTHH:MM:SS+0000`.
pub open spec fn is_time_of_year(t: Seq<char>) -> bool {
    &&& t.len() == 18
    &&& is_digit(t[0]) && is_digit(t[1]) && is_digit(t[2]) && is_digit(t[3])
    &&& t[4] == 'T'
    &&& is_digit(t[5]) && is_digit(t[6])
    &&& t[7] == ':'
    &&& is_digit(t[8]) && is_digit(t[9])
    &&& t[10] == ':'
    &&& is_digit(t[11]) && is_digit(t[12])
    &&& t[13] == '+'
    &&& t[14] == '0' && t[15] == '0' && t[16] == '0' && t[17] == '0'
}

/// The layout of a timestamp: a year of four characters or more, each a digit
/// or a sign, followed by `MMDDTHH:MM:SS+0000`. For the years 0 to 9999 that
/// is `YYYYMMDDTHH:MM:SS+0000`.
pub open spec fn is_timestamp(t: Seq<char>) -> bool {
    &&& t.len() >= 22
    &&& forall|i: int|
        0 <= i < t.len() - 18 ==> is_digit(#[trigger] t[i]) || t[i] == '+' || t[i] == '-'
    &&& is_time_of_year(t.subrange(t.len() - 18, t.len() as int))
}

/// The layout of a nonce: 36 characters, hyphens at the places 8, 13, 18 and
/// 23, lowercase hexadecimal digits elsewhere.
pub open spec fn is_nonce(n: Seq<char>) -> bool {
    &&& n.len() == 36
    &&& forall|i: int|
        0 <= i < 36 ==> if i == 8 || i == 13 || i == 18 || i == 23 {
            #[trigger] n[i] == '-'
        } else {
            is_lower_hex(n[i])
        }
}

/// Calls `OffsetDateTime::now_utc` and `OffsetDateTime::format` of the `time`
/// crate. `format` panics on a format that it cannot parse, so the one format
/// that the library uses is demanded. Trusted: for that format the text has
/// the layout of [`is_timestamp`]: the crate writes the year padded with
/// zeros to four places, with a sign before a negative year and before one of
/// five digits or more, then month, day, hour, minute and second with two
/// digits each between the format's literal characters. Which time it shows
/// depends on the clock, and nothing is claimed about that.
#[verifier::external_body]
pub(crate) fn utc_now_formatted(format: &str) -> (res: String)
    requires
        format@ == timestamp_format(),
    ensures
        is_timestamp(res@),
{
    time::OffsetDateTime::now_utc().format(format)
}

/// Calls `Uuid::new_v4` of the `uuid` crate and renders the identifier by its
/// `Display`. Trusted: the text has the layout of [`is_nonce`], which is the
/// crate's hyphenated lowercase form. Which identifier it is depends on the
/// system's random numbers, and nothing is claimed about that. `new_v4`
/// panics where the operating system gives it no random bytes; no argument
/// decides that, so no precondition can leave it out.
#[verifier::external_body]
pub(crate) fn fresh_nonce() -> (res: String)
    ensures
        is_nonce(res@),
{
    uuid::Uuid::new_v4().to_string()
}

} // verus!
