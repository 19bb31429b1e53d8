//! Points in time.
use vstd::prelude::*;

verus! {

/// A point in time: seconds since 1970-01-01 in UTC, and nanoseconds on top of them.
#[derive(Debug, Clone, Copy, PartialEq, Eq, Structural)]
pub struct Timestamp {
    pub seconds: i64,
    pub nanos: u32,
}

impl Timestamp {
    /// The nanoseconds make up less than a second.
    pub open spec fn wf(self) -> bool {
        self.nanos < 1_000_000_000
    }

    /// Nanoseconds since 1970-01-01 in UTC.
    pub open spec fn total_nanos(self) -> int {
        self.seconds * 1_000_000_000 + self.nanos
    }

    /// Nanoseconds since 1970-01-01 in UTC.
    pub fn in_nanos(self) -> (r: i128)
        ensures
            r == self.total_nanos(),
    {
        self.seconds as i128 * 1_000_000_000 + self.nanos as i128
    }
}

/// The text that `chrono::DateTime::to_rfc3339` gives for this point in time; none where
/// `chrono::DateTime::from_timestamp` knows no such date.
pub uninterp spec fn rfc3339_text(seconds: i64, nanos: u32) -> Option<Seq<char>>;

/// `chrono::DateTime::from_timestamp` followed by `to_rfc3339`: the point in time as ISO-8601
/// text in UTC, a function of its two numbers.
#[verifier::external_body]
pub(crate) fn format_rfc3339(seconds: i64, nanos: u32) -> (r: Option<String>)
    ensures
        r.deep_view() == rfc3339_text(seconds, nanos),
{
    chrono::DateTime::from_timestamp(seconds, nanos).map(|d| d.to_rfc3339())
}

} // verus!
