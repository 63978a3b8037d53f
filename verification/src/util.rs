//! Identifier and timestamp generation, trusted at the crate boundary.

use vstd::prelude::*;

verus! {

/// Relies on `uuid::Uuid::new_v4` and `Uuid::to_string`: a random 128-bit
/// identifier rendered in the hyphenated form, which is 36 characters long.
/// The value is random, so nothing more is promised of it.
#[verifier::external_body]
pub fn generate_id() -> (r: String)
    ensures
        r@.len() == 36,
{
    let id = uuid::Uuid::new_v4();
    id.to_string()
}

/// Relies on `chrono::DateTime::to_rfc3339` over the current system time: an
/// RFC 3339 rendering such as `1996-12-19T16:39:57+00:00`, never empty.  The
/// value depends on the clock, so nothing more is promised of it.
#[verifier::external_body]
pub fn timestamp() -> (r: String)
    ensures
        r@.len() > 0,
{
    let now = std::time::SystemTime::now();
    let now: chrono::DateTime<chrono::Utc> = now.into();
    now.to_rfc3339()
}

} // verus!
