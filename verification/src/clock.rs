//! Identifiers and timestamps from the `uuid` and `chrono` crates.

use vstd::prelude::*;

verus! {

/// A lowercase hexadecimal digit.
pub open spec fn is_lower_hex(c: char) -> bool {
    ('0' <= c && c <= '9') || ('a' <= c && c <= 'f')
}

/// The hyphenated text of a random (version 4, RFC 4122 variant) UUID:
/// 36 characters, `-` at 8, 13, 18 and 23, `4` at 14, one of `8 9 a b`
/// at 19, lowercase hexadecimal digits elsewhere.
pub open spec fn is_v4_uuid_text(s: Seq<char>) -> bool {
    &&& s.len() == 36
    &&& forall|i: int|
        0 <= i < 36 ==> if i == 8 || i == 13 || i == 18 || i == 23 {
            s[i] == '-'
        } else {
            is_lower_hex(#[trigger] s[i])
        }
    &&& s[14] == '4'
    &&& (s[19] == '8' || s[19] == '9' || s[19] == 'a' || s[19] == 'b')
}

/// The RFC 3339 text that chrono gives for a UNIX timestamp, or `None`
/// where `DateTime::from_timestamp` refuses the seconds or nanoseconds.
pub uninterp spec fn rfc3339_of(secs: i64, nanos: u32) -> Option<Seq<char>>;

/// Calls `uuid::Uuid::new_v4` and formats it with `to_string`.  The value
/// is random; the contract states only the hyphenated version 4 format
/// that `new_v4` (version and variant bits) and `fmt::LowerHex` produce.
#[verifier::external_body]
pub(crate) fn new_uuid_v4() -> (r: String)
    ensures
        is_v4_uuid_text(r@),
{
    uuid::Uuid::new_v4().to_string()
}

/// Calls `chrono::DateTime::from_timestamp` and formats a success with
/// `to_rfc3339`; the result is named by `rfc3339_of`.
#[verifier::external_body]
pub(crate) fn rfc3339_from_timestamp(secs: i64, nanos: u32) -> (r: Option<String>)
    ensures
        match r {
            Some(t) => rfc3339_of(secs, nanos) == Some(t@),
            None => rfc3339_of(secs, nanos) is None,
        },
{
    match chrono::DateTime::from_timestamp(secs, nanos) {
        Some(t) => Some(t.to_rfc3339()),
        None => None,
    }
}

/// The RFC 3339 text of an instant given as seconds and nanoseconds since
/// the UNIX epoch, or `None` where chrono cannot represent it.  Callers read
/// the clock themselves and stamp records with this text.
pub fn format_instant(secs: i64, nanos: u32) -> (r: Option<String>)
    ensures
        match r {
            Some(t) => rfc3339_of(secs, nanos) == Some(t@),
            None => rfc3339_of(secs, nanos) is None,
        },
{
    rfc3339_from_timestamp(secs, nanos)
}

} // verus!
