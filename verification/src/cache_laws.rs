//! What holds of a cache across its operations.

use crate::cache::{CacheView, SeriesOp};
use crate::row_group::GroupView;

use vstd::prelude::*;

verus! {

/// A series is always read and written in the partition that its id, taken
/// modulo the number of partitions, names. A write puts the series there
/// and nowhere else, leaves the number of partitions and every other
/// partition as they were, and changes no other series.
pub proof fn lemma_write_routes(c: CacheView, sid: u32, seq: u64, g: GroupView)
    requires
        c.routed(),
    ensures
        c.write(sid, seq, g).routed(),
        c.write(sid, seq, g).partitions.len() == c.partitions.len(),
        forall|other: u32| c.write(sid, seq, g).partition_of(other) == c.partition_of(other),
        c.partition_of(sid) == (sid as int) % (c.partitions.len() as int),
        0 <= c.partition_of(sid) < c.partitions.len(),
        c.write(sid, seq, g).partitions[c.partition_of(sid)].contains_key(sid),
        forall|p: int|
            0 <= p < c.partitions.len() && p != c.partition_of(sid) ==> #[trigger] c.write(
                sid,
                seq,
                g,
            ).partitions[p] == c.partitions[p],
        c.write(sid, seq, g).series() == c.series().insert(sid, c.series_or_empty(sid).write(g)),
{
}

/// A write that the memory pool refuses leaves every series, and the bytes
/// reserved, as they were: only the sequence number has moved.
pub proof fn lemma_refused_write(c: CacheView, seq: u64)
    ensures
        c.refused(seq).series() == c.series(),
        c.refused(seq).partitions == c.partitions,
        c.refused(seq).reserved == c.reserved,
        c.refused(seq).seq_no == seq,
        c.routed() ==> c.refused(seq).routed(),
{
}

/// A change to a series keeps every series in its partition, touches no
/// other series, and neither creates nor removes one.
pub proof fn lemma_change_routes(c: CacheView, sid: u32, op: SeriesOp)
    requires
        c.routed(),
    ensures
        c.change(sid, op).routed(),
        c.change(sid, op).partitions.len() == c.partitions.len(),
        c.change(sid, op).series().dom() == c.series().dom(),
        c.change(sid, op).reserved == c.reserved,
        forall|other: u32|
            other != sid && c.series().contains_key(other) ==> #[trigger] c.change(
                sid,
                op,
            ).series()[other] == c.series()[other],
        c.series().contains_key(sid) ==> c.change(sid, op).series()[sid] == op.apply(
            c.series()[sid],
        ),
{
}

} // verus!
