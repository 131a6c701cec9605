//! Identifiers and stamps that the relay draws from outside: random
//! identifiers and the wall clock.

use vstd::prelude::*;

verus! {

/// Opaque identifier of a registered user: the 128 bits of a UUID.
#[derive(Clone, Copy, Debug, PartialEq, Eq, Hash, Structural)]
pub struct UserId(pub u128);

/// Bits that every random (version 4, RFC variant) UUID has in common.
pub open spec fn is_random_uuid(bits: u128) -> bool {
    bits & 0x0000_0000_0000_f000_c000_0000_0000_0000u128
        == 0x0000_0000_0000_4000_8000_0000_0000_0000u128
}

/// Length of a UUID in its hyphenated text form.
pub const TOKEN_LEN: usize = 36;

/// Least length of a date and time with its offset from UTC: four digits
/// of the year, the date, the time to the second, and `+00:00`.
pub const TIMESTAMP_MIN_LEN: usize = 25;

/// Draws a fresh random user identifier.
///
/// Trusted: calls `uuid::Uuid::new_v4` and packs the result with
/// `Uuid::as_u128`. The contract claims only the version and variant bits
/// that `new_v4` sets on every value it returns. The call aborts the
/// process if the operating system cannot supply random bytes.
#[verifier::external_body]
pub(crate) fn new_user_id() -> (id: UserId)
    ensures
        is_random_uuid(id.0),
{
    UserId(uuid::Uuid::new_v4().as_u128())
}

/// Draws a fresh random token, used as session credential and as message
/// identifier.
///
/// Trusted: calls `uuid::Uuid::new_v4` and formats it with the `Display`
/// impl of `Uuid`, which writes the hyphenated form. The contract claims
/// only the length of that form. The call aborts the process if the
/// operating system cannot supply random bytes.
#[verifier::external_body]
pub(crate) fn new_token() -> (token: String)
    ensures
        token@.len() == TOKEN_LEN,
{
    uuid::Uuid::new_v4().to_string()
}

/// Reads the wall clock as an ISO-8601 / RFC 3339 string in UTC.
///
/// Trusted: calls `chrono::Utc::now` and `DateTime::to_rfc3339`. What the
/// string holds depends on the clock; the contract claims only the least
/// length that the format has, whatever the time. The call aborts the
/// process if the clock stands before the Unix epoch.
#[verifier::external_body]
pub(crate) fn now_rfc3339() -> (stamp: String)
    ensures
        stamp@.len() >= TIMESTAMP_MIN_LEN,
{
    chrono::Utc::now().to_rfc3339()
}

} // verus!
