//! The wall clock, as the stores see it.

use vstd::prelude::*;

verus! {

/// An instant on the UTC time line: whole seconds since the Unix epoch and the
/// nanoseconds into that second.
#[derive(Clone, Copy, Debug, PartialEq, Eq, Structural)]
pub struct Timestamp {
    pub secs: i64,
    pub nanos: u32,
}

/// One reading of the clock: the instant, and the same instant counted in
/// milliseconds since the Unix epoch.
#[derive(Clone, Copy, Debug, PartialEq, Eq, Structural)]
pub struct Reading {
    pub at: Timestamp,
    pub millis: i64,
}

/// Reads the system clock through `chrono::Utc::now` and takes the instant
/// apart with `DateTime::timestamp`, `DateTime::timestamp_subsec_nanos` and
/// `DateTime::timestamp_millis`.
///
/// Nothing is claimed of the reading: every value of it is one the callers
/// are proved for. The outside function aborts when the system clock stands
/// before the Unix epoch.
#[verifier::external_body]
pub(crate) fn read_clock() -> (r: Reading) {
    let now = chrono::Utc::now();
    Reading {
        at: Timestamp { secs: now.timestamp(), nanos: now.timestamp_subsec_nanos() },
        millis: now.timestamp_millis(),
    }
}

} // verus!
