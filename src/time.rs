use vstd::prelude::*;

verus! {

/// Nanoseconds in one second.
pub const NANOS_PER_SEC: i128 = 1_000_000_000;

/// A UTC instant as seconds since the Unix epoch plus a nanosecond part.
#[derive(Clone, Copy, Debug, PartialEq, Eq, Hash, Default)]
pub struct Timestamp {
    pub seconds: i64,
    pub nanos: i32,
}

/// The instant a timestamp denotes, in nanoseconds since the epoch.
pub open spec fn instant(t: Timestamp) -> int {
    t.seconds as int * 1_000_000_000 + t.nanos as int
}

/// The timestamp for seconds and a nanosecond part as a date-time library
/// gives them, when the nanosecond part fits.
pub open spec fn timestamp_from(parsed: Option<(i64, u32)>) -> Option<Timestamp> {
    match parsed {
        Some((seconds, nanos)) => if nanos <= i32::MAX {
            Some(Timestamp { seconds, nanos: nanos as i32 })
        } else {
            None
        },
        None => None,
    }
}

impl Timestamp {
    /// The timestamp for seconds since the epoch and a nanosecond part, when
    /// the nanosecond part fits.
    pub fn from_parsed(parsed: Option<(i64, u32)>) -> (r: Option<Timestamp>)
        ensures
            r == timestamp_from(parsed),
    {
        match parsed {
            Some((seconds, nanos)) => if nanos <= i32::MAX as u32 {
                Some(Timestamp { seconds, nanos: nanos as i32 })
            } else {
                None
            },
            None => None,
        }
    }

    pub fn new(seconds: i64, nanos: i32) -> (r: Timestamp)
        ensures
            r.seconds == seconds,
            r.nanos == nanos,
    {
        Timestamp { seconds, nanos }
    }

    /// The instant in nanoseconds since the epoch.
    pub fn as_nanos(&self) -> (r: i128)
        ensures
            r == instant(*self),
    {
        (self.seconds as i128) * NANOS_PER_SEC + (self.nanos as i128)
    }

    /// Whether `self` is strictly earlier than `other`.
    pub fn is_before(&self, other: &Timestamp) -> (r: bool)
        ensures
            r == (instant(*self) < instant(*other)),
    {
        self.as_nanos() < other.as_nanos()
    }
}

} // verus!
