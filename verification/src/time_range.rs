//! Closed timestamp intervals.

use vstd::prelude::*;

verus! {

/// A closed interval `[min_ts, max_ts]` of timestamps. An interval whose
/// `min_ts` exceeds its `max_ts` holds no timestamp.
#[derive(Clone, Copy, Debug, PartialEq, Eq, Structural)]
pub struct TimeRange {
    pub min_ts: i64,
    pub max_ts: i64,
}

/// The smaller of two timestamps.
pub open spec fn min_ts_of(a: i64, b: i64) -> i64 {
    if a <= b { a } else { b }
}

/// The larger of two timestamps.
pub open spec fn max_ts_of(a: i64, b: i64) -> i64 {
    if a >= b { a } else { b }
}

impl TimeRange {
    /// The interval without any timestamp that is neutral for `merge`.
    pub open spec fn spec_none() -> TimeRange {
        TimeRange { min_ts: i64::MAX, max_ts: i64::MIN }
    }

    /// Whether `ts` lies inside the interval.
    pub open spec fn spec_contains(self, ts: i64) -> bool {
        self.min_ts <= ts && ts <= self.max_ts
    }

    /// Whether the two intervals share a timestamp bound-wise.
    pub open spec fn spec_overlaps(self, other: TimeRange) -> bool {
        !(self.min_ts > other.max_ts || self.max_ts < other.min_ts)
    }

    /// The smallest interval covering both.
    pub open spec fn spec_merge(self, other: TimeRange) -> TimeRange {
        TimeRange {
            min_ts: min_ts_of(self.min_ts, other.min_ts),
            max_ts: max_ts_of(self.max_ts, other.max_ts),
        }
    }

    /// The common part of two intervals, where they overlap.
    pub open spec fn spec_intersect(self, other: TimeRange) -> Option<TimeRange> {
        if self.spec_overlaps(other) {
            Some(
                TimeRange {
                    min_ts: max_ts_of(self.min_ts, other.min_ts),
                    max_ts: min_ts_of(self.max_ts, other.max_ts),
                },
            )
        } else {
            None
        }
    }

    pub fn new(min_ts: i64, max_ts: i64) -> (r: TimeRange)
        ensures
            r == (TimeRange { min_ts, max_ts }),
    {
        TimeRange { min_ts, max_ts }
    }

    /// The whole time axis.
    pub fn all() -> (r: TimeRange)
        ensures
            r == (TimeRange { min_ts: i64::MIN, max_ts: i64::MAX }),
    {
        TimeRange { min_ts: i64::MIN, max_ts: i64::MAX }
    }

    /// The empty interval a fresh series starts from.
    pub fn none() -> (r: TimeRange)
        ensures
            r == TimeRange::spec_none(),
    {
        TimeRange { min_ts: i64::MAX, max_ts: i64::MIN }
    }

    pub fn contains(&self, ts: i64) -> (b: bool)
        ensures
            b == self.spec_contains(ts),
    {
        self.min_ts <= ts && ts <= self.max_ts
    }

    pub fn overlaps(&self, other: &TimeRange) -> (b: bool)
        ensures
            b == self.spec_overlaps(*other),
    {
        !(self.min_ts > other.max_ts || self.max_ts < other.min_ts)
    }

    /// Widens `self` so that it also covers `other`.
    pub fn merge(&mut self, other: &TimeRange)
        ensures
            *final(self) == old(self).spec_merge(*other),
    {
        if other.min_ts < self.min_ts {
            self.min_ts = other.min_ts;
        }
        if other.max_ts > self.max_ts {
            self.max_ts = other.max_ts;
        }
    }

    pub fn intersect(&self, other: &TimeRange) -> (r: Option<TimeRange>)
        ensures
            r == self.spec_intersect(*other),
    {
        if self.overlaps(other) {
            let min_ts: i64 = if self.min_ts >= other.min_ts { self.min_ts } else { other.min_ts };
            let max_ts: i64 = if self.max_ts <= other.max_ts { self.max_ts } else { other.max_ts };
            Some(TimeRange { min_ts, max_ts })
        } else {
            None
        }
    }
}

/// Merging is commutative, and the empty interval is neutral for it.
pub proof fn lemma_merge_laws(a: TimeRange, b: TimeRange)
    ensures
        a.spec_merge(b) == b.spec_merge(a),
        TimeRange::spec_none().spec_merge(a) == a,
        a.spec_merge(a) == a,
{
}

} // verus!
