use vstd::prelude::*;
use crate::error::ScheduleError;

verus! {

/// The latest second that the timestamp arithmetic can represent: the last
/// second of year 262142, UTC, the end of chrono's `DateTime::<Utc>::MAX_UTC`.
pub const MAX_SECONDS: i64 = 8210266876799;

/// An absolute point in time: seconds since the Unix epoch in UTC and the
/// nanoseconds past that second.
#[derive(Clone, Copy, Debug, PartialEq, Eq, Structural)]
pub struct Timestamp {
    pub secs: i64,
    pub nanos: u32,
}

impl Timestamp {
    /// Whether `self` lies at or before `other`.
    pub open spec fn spec_at_or_before(self, other: Timestamp) -> bool {
        self.secs < other.secs || (self.secs == other.secs && self.nanos <= other.nanos)
    }

    #[verifier::when_used_as_spec(spec_at_or_before)]
    pub fn at_or_before(self, other: Timestamp) -> (r: bool)
        ensures
            r == self.spec_at_or_before(other),
    {
        self.secs < other.secs || (self.secs == other.secs && self.nanos <= other.nanos)
    }

    /// The nanoseconds that remain once `seconds` are added: moving on by a
    /// whole second or more leaves a leap second (nanoseconds past one
    /// billion) behind.
    pub open spec fn nanos_after(self, seconds: u64) -> u32 {
        if seconds > 0 && self.nanos >= 1_000_000_000 {
            (self.nanos - 1_000_000_000) as u32
        } else {
            self.nanos
        }
    }

    /// `self` moved `seconds` later, where that stays representable.
    pub open spec fn spec_plus_seconds(self, seconds: u64) -> Option<Timestamp> {
        if self.secs + seconds <= MAX_SECONDS {
            Some(Timestamp { secs: (self.secs + seconds) as i64, nanos: self.nanos_after(seconds) })
        } else {
            None
        }
    }

    /// Adds `seconds`, leaving a leap second behind when at least one second
    /// is added; a range error where the result lies past the representable
    /// range.
    pub fn plus_seconds(self, seconds: u64) -> (r: Result<Timestamp, ScheduleError>)
        ensures
            match self.spec_plus_seconds(seconds) {
                Some(t) => r == Ok::<Timestamp, ScheduleError>(t),
                None => r == Err::<Timestamp, ScheduleError>(ScheduleError::TimeRange),
            },
    {
        let sum = self.secs as i128 + seconds as i128;
        if sum > MAX_SECONDS as i128 {
            Err(ScheduleError::TimeRange)
        } else {
            let nanos = if seconds > 0 && self.nanos >= 1_000_000_000 {
                self.nanos - 1_000_000_000
            } else {
                self.nanos
            };
            Ok(Timestamp { secs: sum as i64, nanos })
        }
    }
}

#[verifier::external_type_specification]
#[verifier::external_body]
pub struct ExParseError(chrono::ParseError);

/// The seconds since the epoch and the nanoseconds past that second of the
/// instant that chrono reads from `s` as a `DateTime<Utc>`, or `None` where it
/// reads none.
pub uninterp spec fn parsed_instant(s: Seq<char>) -> Option<(i64, u32)>;

/// Relies on chrono's `FromStr` for `DateTime<Utc>` (a relaxed RFC 3339 with
/// an offset, converted to UTC) and on `DateTime::timestamp` and
/// `DateTime::timestamp_subsec_nanos` to read the instant back.
#[verifier::external_body]
fn chrono_instant(s: &str) -> (r: Result<(i64, u32), chrono::ParseError>)
    ensures
        match r {
            Ok(p) => parsed_instant(s@) == Some(p),
            Err(_) => parsed_instant(s@) is None,
        },
{
    s.parse::<chrono::DateTime<chrono::Utc>>().map(|t| (t.timestamp(), t.timestamp_subsec_nanos()))
}

/// What reading a start time gives.
pub open spec fn timestamp_result(s: Seq<char>) -> Result<Timestamp, ScheduleError> {
    match parsed_instant(s) {
        Some(p) => Ok(Timestamp { secs: p.0, nanos: p.1 }),
        None => Err(ScheduleError::TimeFormat),
    }
}

/// Reads a timestamp in the schedule's native format (ISO 8601 with an offset).
pub fn parse_timestamp(text: &str) -> (r: Result<Timestamp, ScheduleError>)
    ensures
        r == timestamp_result(text@),
{
    match chrono_instant(text) {
        Ok(p) => Ok(Timestamp { secs: p.0, nanos: p.1 }),
        Err(_) => Err(ScheduleError::TimeFormat),
    }
}

} // verus!
