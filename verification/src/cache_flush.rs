//! Flushing a whole cache: the blocks of every series, grouped by table.

use crate::block::BlockView;
use crate::cache::{CacheView, MemCache};
use crate::chunk::{add_block, chunks_hold, chunks_view, TableChunk};
use crate::error::Error;
use crate::flush::{flush_result, Version};
use crate::series::SeriesView;
use std::sync::Arc;
use vstd::prelude::*;

verus! {

/// The block that a flush hands on for a series, with the name of its
/// table: the full block, or the delta block where `delta` is set. A block
/// without rows is not handed on.
pub open spec fn block_of(s: SeriesView, max_level_ts: i64, delta: bool) -> Option<
    (Seq<char>, BlockView),
> {
    match flush_result(s, max_level_ts) {
        Ok(Some((name, full, part))) => {
            let b = if delta {
                part
            } else {
                full
            };
            if b.ts.values.len() != 0 {
                Some((name, b))
            } else {
                None
            }
        },
        _ => None,
    }
}

/// The blocks that a flush hands on for the series among the given ids.
pub open spec fn blocks_among(
    series: Map<u32, SeriesView>,
    max_level_ts: i64,
    delta: bool,
    among: Set<u32>,
) -> Map<u32, (Seq<char>, BlockView)> {
    Map::new(
        |sid: u32|
            among.contains(sid) && series.contains_key(sid) && block_of(
                series[sid],
                max_level_ts,
                delta,
            ) is Some,
        |sid: u32| block_of(series[sid], max_level_ts, delta).unwrap(),
    )
}

/// The blocks that a flush hands on for a cache.
pub open spec fn flush_blocks(c: CacheView, max_level_ts: i64, delta: bool) -> Map<
    u32,
    (Seq<char>, BlockView),
> {
    blocks_among(c.series(), max_level_ts, delta, c.series().dom())
}

/// Whether the flush of some series of the cache fails with the error.
pub open spec fn flush_fails_with(c: CacheView, max_level_ts: i64, e: Error) -> bool {
    exists|sid: u32|
        c.series().contains_key(sid) && #[trigger] flush_result(c.series()[sid], max_level_ts)
            == Err::<Option<(Seq<char>, BlockView, BlockView)>, Error>(e)
}

/// Whether the flush of every series of the cache succeeds.
pub open spec fn flush_succeeds(c: CacheView, max_level_ts: i64) -> bool {
    forall|sid: u32|
        c.series().contains_key(sid) ==> (#[trigger] flush_result(
            c.series()[sid],
            max_level_ts,
        )) is Ok
}

/// The ids among the first `i + 1` are those among the first `i` and the
/// one that follows them.
pub proof fn lemma_take_next(ids: Seq<u32>, i: int)
    requires
        0 <= i < ids.len(),
    ensures
        ids.take(i + 1).to_set() == ids.take(i).to_set().insert(ids[i]),
{
    let prev = ids.take(i);
    let next = ids.take(i + 1);
    assert forall|x: u32| next.to_set().contains(x) <==> prev.to_set().insert(ids[i]).contains(
        x,
    ) by {
        if x == ids[i] {
            assert(next[i] == x);
        }
    }
}

impl MemCache {
    /// Converts every series into its blocks and groups them by table: the
    /// full blocks in the first result, the delta blocks in the second.
    /// Blocks without rows are left out. The flush fails where that of a
    /// series does.
    pub fn to_chunk_group(&self, version: Arc<Version>) -> (r: Result<
        (Vec<TableChunk>, Vec<TableChunk>),
        Error,
    >)
        requires
            self.wf(),
        ensures
            match r {
                Ok((full, delta)) => {
                    &&& flush_succeeds(self@, version.max_level_ts)
                    &&& chunks_hold(
                        chunks_view(full@),
                        flush_blocks(self@, version.max_level_ts, false),
                    )
                    &&& chunks_hold(
                        chunks_view(delta@),
                        flush_blocks(self@, version.max_level_ts, true),
                    )
                },
                Err(e) => flush_fails_with(self@, version.max_level_ts, e),
            },
    {
        let ids = self.series_ids();
        let bound = version.max_level_ts;
        let ghost series = self@.series();
        let mut chunk_group: Vec<TableChunk> = Vec::new();
        let mut delta_chunk_group: Vec<TableChunk> = Vec::new();
        let mut i: usize = 0;
        while i < ids.len()
            invariant
                i <= ids.len(),
                self.wf(),
                series == self@.series(),
                bound == version.max_level_ts,
                ids@.no_duplicates(),
                ids@.to_set() == series.dom(),
                forall|t: int|
                    0 <= t < i ==> (#[trigger] flush_result(series[ids[t]], bound)) is Ok,
                chunks_hold(
                    chunks_view(chunk_group@),
                    blocks_among(series, bound, false, ids@.take(i as int).to_set()),
                ),
                chunks_hold(
                    chunks_view(delta_chunk_group@),
                    blocks_among(series, bound, true, ids@.take(i as int).to_set()),
                ),
            decreases ids.len() - i,
        {
            let sid = ids[i];
            let ghost done = ids@.take(i as int).to_set();
            proof {
                lemma_take_next(ids@, i as int);
            }
            let data = match self.get_series(sid) {
                Some(d) => d,
                None => {
                    i += 1;
                    continue ;
                },
            };
            let built = match data.build_data_block(Arc::new(Version { max_level_ts: bound })) {
                Ok(b) => b,
                Err(e) => {
                    return Err(e);
                },
            };
            let ghost full_before = blocks_among(series, bound, false, done);
            let ghost delta_before = blocks_among(series, bound, true, done);
            match built {
                Some((table, datablock, delta_datablock)) => {
                    if datablock.len() != 0 {
                        let name = table.clone();
                        add_block(
                            &mut chunk_group,
                            name,
                            sid,
                            datablock,
                            Ghost(full_before),
                        );
                    }
                    if delta_datablock.len() != 0 {
                        add_block(
                            &mut delta_chunk_group,
                            table,
                            sid,
                            delta_datablock,
                            Ghost(delta_before),
                        );
                    }
                },
                None => {},
            }
            i += 1;
        }
        proof {
            assert(ids@.take(ids.len() as int) =~= ids@);
        }
        Ok((chunk_group, delta_chunk_group))
    }
}

} // verus!
