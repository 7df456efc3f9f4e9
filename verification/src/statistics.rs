//! What a cache can tell of the time ranges of its series.

use crate::cache::{CacheView, MemCache};
use crate::time_range::TimeRange;
use std::collections::HashMap;
use vstd::prelude::*;

verus! {

broadcast use vstd::std_specs::hash::group_hash_axioms;

/// For each series that was asked for, the part of the asked time range
/// that the series has rows in.
#[derive(Debug)]
pub struct MemCacheStatistics {
    tf_id: u32,
    /// The sequence number the cache started at.
    seq_no: u64,
    statistics: HashMap<u32, TimeRange>,
}

/// The time ranges that the statistics of a cache hold for the series
/// among `asked`: for each series that the cache holds and whose range
/// overlaps `range`, the part they have in common.
pub open spec fn overlaps_among(c: CacheView, asked: Seq<u32>, range: TimeRange) -> Map<
    u32,
    TimeRange,
> {
    Map::new(
        |sid: u32|
            asked.contains(sid) && c.series().contains_key(sid) && range.spec_intersect(
                c.series()[sid].range,
            ) is Some,
        |sid: u32| range.spec_intersect(c.series()[sid].range).unwrap(),
    )
}

impl MemCacheStatistics {
    /// The time range per series.
    pub closed spec fn ranges(&self) -> Map<u32, TimeRange> {
        self.statistics@
    }

    /// The id of the cache that the statistics were taken of.
    pub closed spec fn spec_tf_id(&self) -> u32 {
        self.tf_id
    }

    /// The sequence number that the cache started at.
    pub closed spec fn spec_seq_no(&self) -> u64 {
        self.seq_no
    }

    pub fn tf_id(&self) -> (r: u32)
        ensures
            r == self.spec_tf_id(),
    {
        self.tf_id
    }

    pub fn seq_no(&self) -> (r: u64)
        ensures
            r == self.spec_seq_no(),
    {
        self.seq_no
    }

    /// The time range recorded for the series.
    pub fn get(&self, sid: u32) -> (r: Option<TimeRange>)
        ensures
            match r {
                Some(range) => self.ranges().contains_key(sid) && self.ranges()[sid] == range,
                None => !self.ranges().contains_key(sid),
            },
    {
        match self.statistics.get(&sid) {
            Some(range) => Some(*range),
            None => None,
        }
    }

    /// The number of series with a time range.
    pub fn len(&self) -> (n: usize)
        ensures
            n == self.ranges().len(),
    {
        self.statistics.len()
    }
}

impl MemCache {
    /// For each of the series, the part of `time_predicate` that overlaps
    /// the range of the series. Series that the cache does not hold, or
    /// that do not overlap, are left out.
    pub fn statistics(&self, series_ids: &[u32], time_predicate: TimeRange) -> (r:
        MemCacheStatistics)
        requires
            self.wf(),
        ensures
            r.spec_tf_id() == self@.tf_id,
            r.spec_seq_no() == self@.min_seq_no,
            r.ranges() == overlaps_among(self@, series_ids@, time_predicate),
    {
        let mut statistics: HashMap<u32, TimeRange> = HashMap::new();
        let mut i: usize = 0;
        while i < series_ids.len()
            invariant
                i <= series_ids.len(),
                self.wf(),
                statistics@ == overlaps_among(self@, series_ids@.take(i as int), time_predicate),
            decreases series_ids.len() - i,
        {
            let sid = series_ids[i];
            let ghost prev = series_ids@.take(i as int);
            let ghost next = series_ids@.take(i + 1);
            proof {
                assert forall|x: u32| next.contains(x) <==> prev.contains(x) || x == sid by {
                    if x == sid {
                        assert(next[i as int] == x);
                    }
                }
            }
            let found = match self.get_series(sid) {
                Some(series) => time_predicate.intersect(&series.range),
                None => None,
            };
            match found {
                Some(range) => {
                    statistics.insert(sid, range);
                },
                None => {},
            }
            i += 1;
        }
        assert(series_ids@.take(series_ids.len() as int) =~= series_ids@);
        MemCacheStatistics { tf_id: self.tf_id(), seq_no: self.min_seq_no(), statistics }
    }
}

} // verus!
