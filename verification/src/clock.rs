//! Points in time.
use vstd::prelude::*;

verus! {

/// A point in time: whole seconds since the Unix epoch, and nanoseconds.
#[derive(Debug, Clone, Copy, PartialEq, Eq, Structural)]
pub struct Instant {
    pub unix: i64,
    pub nanos: u32,
}

/// The last second of the year 9999.
pub const LAST_SECOND: i64 = 253_402_300_799;

/// The RFC 3339 text in UTC that chrono gives for a point in time.
pub uninterp spec fn rfc3339_text(unix: i64, nanos: u32) -> Seq<char>;

impl Instant {
    /// From the epoch to the end of the year 9999.
    pub open spec fn wf(&self) -> bool {
        0 <= self.unix <= LAST_SECOND && self.nanos < 1_000_000_000
    }

    /// A point in time, where it lies between the epoch and the end of the year
    /// 9999.
    pub fn new(unix: i64, nanos: u32) -> (r: Option<Instant>)
        ensures
            match r {
                Some(t) => t == (Instant { unix, nanos }) && t.wf(),
                None => !(Instant { unix, nanos }).wf(),
            },
    {
        if 0 <= unix && unix <= LAST_SECOND && nanos < 1_000_000_000 {
            Some(Instant { unix, nanos })
        } else {
            None
        }
    }

    /// The point in time as RFC 3339 text in UTC.
    pub fn to_rfc3339(&self) -> (r: String)
        requires
            self.wf(),
        ensures
            r@ == rfc3339_text(self.unix, self.nanos),
    {
        utc_rfc3339(self.unix, self.nanos)
    }
}

/// Calls chrono's `DateTime::from_timestamp` and `DateTime::to_rfc3339`. Within
/// the range that is asked for, the first always gives a value; the text depends
/// on the two numbers alone.
#[verifier::external_body]
fn utc_rfc3339(unix: i64, nanos: u32) -> (r: String)
    requires
        0 <= unix <= LAST_SECOND,
        nanos < 1_000_000_000,
    ensures
        r@ == rfc3339_text(unix, nanos),
{
    chrono::DateTime::from_timestamp(unix, nanos).unwrap().to_rfc3339()
}

} // verus!
