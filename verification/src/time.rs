//! Wall-clock timestamps carried by task and status records.
use vstd::prelude::*;

verus! {

/// A UTC instant as whole seconds since the Unix epoch and the nanoseconds
/// past that second.
#[derive(Debug, Clone, Copy, PartialEq, Eq, Structural)]
pub struct Timestamp {
    pub unix_seconds: i64,
    pub nanos: u32,
}

/// `a` is strictly earlier than `b`.
pub open spec fn earlier(a: Timestamp, b: Timestamp) -> bool {
    a.unix_seconds < b.unix_seconds || (a.unix_seconds == b.unix_seconds && a.nanos < b.nanos)
}

/// The system clock as a `chrono::DateTime<Utc>` (chrono's
/// `From<SystemTime>`), read as seconds and nanoseconds. The value depends
/// on the clock, so nothing is stated of it. The conversion counts a clock
/// set before 1970 as negative seconds instead of failing, and every time
/// the system clock can hold lies within chrono's range.
#[verifier::external_body]
pub(crate) fn now() -> Timestamp {
    let t = chrono::DateTime::<chrono::Utc>::from(std::time::SystemTime::now());
    Timestamp { unix_seconds: t.timestamp(), nanos: t.timestamp_subsec_nanos() }
}

} // verus!
