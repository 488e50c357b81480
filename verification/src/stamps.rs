//! Timestamps and record identifiers as plain text.
//!
//! Timestamps are RFC 3339 strings in UTC; identifiers are canonical
//! hyphenated UUID text. The engine treats both as opaque validated strings:
//! only the outside clock and random source can mint them.

use vstd::prelude::*;

use chrono::DateTime;
use chrono::Utc;
use uuid::Uuid;

verus! {

/// Whether a string parses as an RFC 3339 timestamp.
pub uninterp spec fn rfc3339_ok(s: Seq<char>) -> bool;

/// Whether a string parses as a UUID.
pub uninterp spec fn uuid_ok(s: Seq<char>) -> bool;

/// Relies on `chrono::Utc::now` and `DateTime::to_rfc3339`: the current UTC
/// time, rendered in RFC 3339. The value depends on the clock; nothing is
/// assumed of it except that the rendering parses back.
#[verifier::external_body]
pub(crate) fn now_rfc3339() -> (r: String)
    ensures
        rfc3339_ok(r@),
{
    Utc::now().to_rfc3339()
}

/// Relies on `chrono::DateTime::parse_from_rfc3339`: a deterministic check
/// that a string is a well-formed RFC 3339 timestamp.
#[verifier::external_body]
pub(crate) fn rfc3339_valid(s: &str) -> (r: bool)
    ensures
        r == rfc3339_ok(s@),
{
    DateTime::parse_from_rfc3339(s).is_ok()
}

/// Relies on `uuid::Uuid::new_v4` and its `Display`: a fresh random
/// version-4 UUID in canonical hyphenated text, which is 36 characters long
/// and parses back. The value itself is random; nothing more is assumed.
#[verifier::external_body]
pub(crate) fn new_uuid_text() -> (r: String)
    ensures
        r@.len() == 36,
        uuid_ok(r@),
{
    Uuid::new_v4().to_string()
}

/// Relies on `uuid::Uuid::parse_str`: a deterministic check that a string is
/// well-formed UUID text.
#[verifier::external_body]
pub(crate) fn uuid_valid(s: &str) -> (r: bool)
    ensures
        r == uuid_ok(s@),
{
    Uuid::parse_str(s).is_ok()
}

} // verus!
