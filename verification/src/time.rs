//! Points in time with a fixed offset from UTC.

use vstd::prelude::*;

verus! {

/// `chrono::ParseError`, the reason for which a text is no date and time.
#[verifier::external_type_specification]
#[verifier::external_body]
pub struct ExParseError(chrono::ParseError);

/// What `text` reads as under RFC 3339: the seconds since the Unix epoch,
/// the nanoseconds since the last full second, and the seconds by which
/// local time is ahead of UTC. `None` where `text` is no RFC 3339 date and
/// time.
pub uninterp spec fn rfc3339_reading(text: Seq<char>) -> Option<(i64, u32, i32)>;

/// Parses `text` with `chrono::DateTime::parse_from_rfc3339` and hands out
/// `timestamp()`, `timestamp_subsec_nanos()` and the offset's
/// `local_minus_utc()`.
///
/// Trusted: the outcome is a function of `text` alone.
#[verifier::external_body]
pub(crate) fn read_rfc3339(text: &str) -> (r: Result<(i64, u32, i32), chrono::ParseError>)
    ensures
        match r {
            Ok(reading) => rfc3339_reading(text@) == Some(reading),
            Err(_) => rfc3339_reading(text@) is None,
        },
{
    match chrono::DateTime::parse_from_rfc3339(text) {
        Ok(t) => Ok((t.timestamp(), t.timestamp_subsec_nanos(), t.offset().local_minus_utc())),
        Err(e) => Err(e),
    }
}

/// The length in seconds of the window that a query looks ahead: two hours.
pub const WINDOW_SECONDS: i64 = 7200;

/// A point in time with a fixed offset from UTC.
///
/// `seconds` counts the seconds since the Unix epoch and `nanos` the
/// nanoseconds since the last full second; within a leap second `nanos`
/// runs on beyond 999,999,999. Points in time are ordered by `seconds`,
/// then by `nanos`. `offset` is the number of seconds by which local time is
/// ahead of UTC; it plays no part in the order.
#[derive(Clone, Copy, Debug, PartialEq, Eq, Structural)]
pub struct Timestamp {
    pub seconds: i64,
    pub nanos: u32,
    pub offset: i32,
}

impl Timestamp {
    /// Whether this point in time is strictly later than `other`.
    pub open spec fn after(self, other: Timestamp) -> bool {
        self.seconds > other.seconds || (self.seconds == other.seconds && self.nanos > other.nanos)
    }

    /// Whether this point in time lies in the window of `query`: strictly
    /// later than `query`, and no later than two hours after it.
    pub open spec fn in_window_of(self, query: Timestamp) -> bool {
        &&& self.after(query)
        &&& (self.seconds < query.seconds + WINDOW_SECONDS || (self.seconds == query.seconds
            + WINDOW_SECONDS && self.nanos <= query.nanos))
    }

    /// The point in time with the given parts.
    pub fn new(seconds: i64, nanos: u32, offset: i32) -> (r: Timestamp)
        ensures
            r == (Timestamp { seconds, nanos, offset }),
    {
        Timestamp { seconds, nanos, offset }
    }

    /// Whether this point in time is strictly later than `other`.
    pub fn is_after(&self, other: &Timestamp) -> (r: bool)
        ensures
            r == self.after(*other),
    {
        self.seconds > other.seconds || (self.seconds == other.seconds && self.nanos > other.nanos)
    }

    /// Whether this point in time lies in the window of `query`.
    pub fn is_in_window_of(&self, query: &Timestamp) -> (r: bool)
        ensures
            r == self.in_window_of(*query),
    {
        if !self.is_after(query) {
            return false;
        }
        // `self` is not before `query`, so the difference cannot overflow
        // downwards; it overflows upwards only far beyond the window.
        match self.seconds.checked_sub(query.seconds) {
            Some(ahead) => ahead < WINDOW_SECONDS || (ahead == WINDOW_SECONDS && self.nanos
                <= query.nanos),
            None => false,
        }
    }

    /// The point in time that `text` writes under RFC 3339, as in
    /// `2024-05-01T12:00:00+02:00`.
    pub fn parse(text: &str) -> (r: Option<Timestamp>)
        ensures
            r == timestamp_of(text@),
    {
        match read_rfc3339(text) {
            Ok(reading) => Some(
                Timestamp { seconds: reading.0, nanos: reading.1, offset: reading.2 },
            ),
            Err(_) => None,
        }
    }
}

/// The point in time that `text` writes under RFC 3339; `None` where it
/// writes none.
pub open spec fn timestamp_of(text: Seq<char>) -> Option<Timestamp> {
    match rfc3339_reading(text) {
        Some(reading) => Some(
            Timestamp { seconds: reading.0, nanos: reading.1, offset: reading.2 },
        ),
        None => None,
    }
}

} // verus!
