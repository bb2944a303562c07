//! The instant at which a frame was sampled.
use vstd::prelude::*;

verus! {

/// Seconds and nanoseconds since the Unix epoch, UTC.
///
/// Instants are ordered by `secs`, then by `nanos`; `key` maps that order onto the
/// integers.
#[derive(Clone, Copy, Debug, PartialEq, Eq, Structural, Hash)]
pub struct Timestamp {
    pub secs: i64,
    pub nanos: u32,
}

/// The millisecond count of the first instant of the calendar, the beginning of the
/// year 262144 BCE.
pub const MILLIS_MIN: i64 = -8_334_601_228_800_000;

/// The millisecond count of the last millisecond of the calendar, at the end of the
/// year 262142 CE.
pub const MILLIS_MAX: i64 = 8_210_266_876_799_999;

impl Timestamp {
    /// An integer that orders instants as they are ordered in time.
    pub open spec fn key(self) -> int {
        self.secs * 0x1_0000_0000 + self.nanos
    }

    pub fn new(secs: i64, nanos: u32) -> (t: Timestamp)
        ensures
            t == (Timestamp { secs, nanos }),
    {
        Timestamp { secs, nanos }
    }

    /// Whether `self` is strictly later than `other`.
    pub fn is_after(&self, other: &Timestamp) -> (b: bool)
        ensures
            b == (self.key() > other.key()),
    {
        self.secs > other.secs || (self.secs == other.secs && self.nanos > other.nanos)
    }

    /// Whether `self` is `other` or later.
    pub fn is_at_or_after(&self, other: &Timestamp) -> (b: bool)
        ensures
            b == (self.key() >= other.key()),
    {
        self.secs > other.secs || (self.secs == other.secs && self.nanos >= other.nanos)
    }

    /// Whether `self` is strictly earlier than `other`.
    pub fn is_before(&self, other: &Timestamp) -> (b: bool)
        ensures
            b == (self.key() < other.key()),
    {
        other.is_after(self)
    }

    /// Whether `self` is `other` or earlier.
    pub fn is_at_or_before(&self, other: &Timestamp) -> (b: bool)
        ensures
            b == (self.key() <= other.key()),
    {
        other.is_at_or_after(self)
    }

    /// What `from_millis` returns where the calendar holds the count.
    pub open spec fn spec_from_millis(millis: i64) -> Timestamp {
        Timestamp {
            secs: (millis as int / 1000) as i64,
            nanos: ((millis as int % 1000) * 1_000_000) as u32,
        }
    }

    /// The instant `millis` milliseconds after the epoch, as a broker stamps it on a
    /// message; `None` where the calendar cannot hold it.
    pub fn from_millis(millis: i64) -> (r: Option<Timestamp>)
        ensures
            r == (if MILLIS_MIN <= millis <= MILLIS_MAX {
                Some(Self::spec_from_millis(millis))
            } else {
                None
            }),
    {
        match utc_from_millis(millis) {
            Some((secs, nanos)) => Some(Timestamp { secs, nanos }),
            None => None,
        }
    }
}

impl Default for Timestamp {
    /// The epoch.
    fn default() -> (t: Timestamp)
        ensures
            t == (Timestamp { secs: 0, nanos: 0 }),
    {
        Timestamp { secs: 0, nanos: 0 }
    }
}

/// Two instants are the same exactly when their keys are.
pub proof fn lemma_key_injective(a: Timestamp, b: Timestamp)
    ensures
        a.key() == b.key() <==> a == b,
{
}

/// `chrono::DateTime::<Utc>::from_timestamp_millis`, read back through `timestamp`
/// and `timestamp_subsec_nanos`. Not proved: that a result holds the floored
/// quotient of the count by 1000 as its seconds and the remainder, in nanoseconds,
/// as its sub-second part; and that a count has a result exactly if it lies within
/// the calendar of the crate, which runs from 1 January 262144 BCE to 31 December
/// 262142 CE.
#[verifier::external_body]
fn utc_from_millis(millis: i64) -> (r: Option<(i64, u32)>)
    ensures
        r matches Some(p) ==> p.0 == millis as int / 1000 && p.1 == (millis as int % 1000)
            * 1_000_000,
        r is Some <==> MILLIS_MIN <= millis <= MILLIS_MAX,
{
    match chrono::DateTime::from_timestamp_millis(millis) {
        Some(t) => Some((t.timestamp(), t.timestamp_subsec_nanos())),
        None => None,
    }
}

} // verus!
