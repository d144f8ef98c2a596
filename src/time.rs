use vstd::prelude::*;

verus! {

/// A point in time: whole seconds since the Unix epoch and the nanoseconds
/// past that second.
#[derive(Clone, Copy, Debug, PartialEq, Eq, Structural, Hash, PartialOrd, Ord)]
pub struct Timestamp {
    pub secs: u64,
    pub nanos: u32,
}

/// `a` is not later than `b` (lexicographic on seconds, then nanoseconds).
pub open spec fn ts_le(a: Timestamp, b: Timestamp) -> bool {
    a.secs < b.secs || (a.secs == b.secs && a.nanos <= b.nanos)
}

/// The later of two timestamps.
pub open spec fn ts_max(a: Timestamp, b: Timestamp) -> Timestamp {
    if ts_le(a, b) {
        b
    } else {
        a
    }
}

impl Timestamp {
    pub fn new(secs: u64, nanos: u32) -> (r: Timestamp)
        ensures
            r.secs == secs,
            r.nanos == nanos,
    {
        Timestamp { secs, nanos }
    }

    /// Whether `self` is not later than `other`.
    pub fn le(&self, other: &Timestamp) -> (r: bool)
        ensures
            r == ts_le(*self, *other),
    {
        self.secs < other.secs || (self.secs == other.secs && self.nanos <= other.nanos)
    }
}

/// The later of two timestamps.
pub fn max_timestamp(a: Timestamp, b: Timestamp) -> (r: Timestamp)
    ensures
        r == ts_max(a, b),
{
    if a.le(&b) {
        b
    } else {
        a
    }
}

/// `ts_le` is a total order.
pub proof fn lemma_ts_le_total_order(a: Timestamp, b: Timestamp, c: Timestamp)
    ensures
        ts_le(a, a),
        ts_le(a, b) || ts_le(b, a),
        ts_le(a, b) && ts_le(b, a) ==> a == b,
        ts_le(a, b) && ts_le(b, c) ==> ts_le(a, c),
{
}

} // verus!
