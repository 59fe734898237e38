//! The wall clock, read and rendered by the `time` crate.

use vstd::prelude::*;

verus! {

/// `time::OffsetDateTime`, an instant with its offset from UTC. Nothing is
/// known of its contents.
#[verifier::external_type_specification]
#[verifier::external_body]
pub struct ExOffsetDateTime(time::OffsetDateTime);

/// `time::error::Format`, the error of rendering an instant. Nothing is
/// known of its contents.
#[verifier::external_type_specification]
#[verifier::external_body]
pub struct ExTimeFormatError(time::error::Format);

/// Calls `time::OffsetDateTime::now_utc`, which reads the system clock.
/// Nothing is claimed of the instant that it returns. The call panics where
/// the clock stands outside the years that the crate can represent.
#[verifier::external_body]
pub(crate) fn now_utc() -> time::OffsetDateTime {
    time::OffsetDateTime::now_utc()
}

/// Calls `time::OffsetDateTime::format` with the RFC 3339 description. The
/// call fails for an instant that RFC 3339 cannot express, such as a year
/// beyond 9999. Nothing is claimed of the text that it returns.
#[verifier::external_body]
pub(crate) fn rfc3339(instant: time::OffsetDateTime) -> Result<String, time::error::Format> {
    instant.format(&time::format_description::well_known::Rfc3339)
}

} // verus!
