//! The blocks of a flush, grouped by table and series.

use crate::block::{BlockView, DataBlock};
use vstd::prelude::*;

verus! {

/// The block that a flush made of one series.
#[derive(Debug, PartialEq, Eq)]
pub struct SeriesBlock {
    pub series_id: u32,
    pub block: DataBlock,
}

/// The blocks of the series of one table.
#[derive(Debug, PartialEq, Eq)]
pub struct TableChunk {
    pub table: String,
    pub blocks: Vec<SeriesBlock>,
}

/// What the blocks of one table stand for.
pub struct ChunkView {
    pub table: Seq<char>,
    pub blocks: Seq<(u32, BlockView)>,
}

impl View for TableChunk {
    type V = ChunkView;

    open spec fn view(&self) -> ChunkView {
        ChunkView {
            table: self.table@,
            blocks: Seq::new(
                self.blocks.len() as nat,
                |k: int| (self.blocks[k].series_id, self.blocks[k].block@),
            ),
        }
    }
}

/// The views of a list of table chunks.
pub open spec fn chunks_view(data: Seq<TableChunk>) -> Seq<ChunkView> {
    Seq::new(data.len(), |i: int| data[i]@)
}

/// Whether `(i, k)` is the place of a block in the chunks.
pub open spec fn is_place(data: Seq<ChunkView>, i: int, k: int) -> bool {
    0 <= i < data.len() && 0 <= k < data[i].blocks.len()
}

/// The series id of the block at the place `(i, k)`.
pub open spec fn series_at(data: Seq<ChunkView>, i: int, k: int) -> u32 {
    data[i].blocks[k].0
}

/// Whether the chunks list a block for the series.
pub open spec fn lists(data: Seq<ChunkView>, sid: u32) -> bool {
    exists|i: int, k: int| is_place(data, i, k) && #[trigger] series_at(data, i, k) == sid
}

/// Whether the chunks hold exactly the wanted blocks: one chunk per table
/// name, none of them empty, and for each wanted series one block, under
/// the name of its table.
pub open spec fn chunks_hold(
    data: Seq<ChunkView>,
    wanted: Map<u32, (Seq<char>, BlockView)>,
) -> bool {
    &&& forall|i: int, j: int|
        0 <= i < j < data.len() ==> (#[trigger] data[i]).table != (#[trigger] data[j]).table
    &&& forall|i: int| 0 <= i < data.len() ==> (#[trigger] data[i]).blocks.len() > 0
    &&& forall|i: int, k: int|
        is_place(data, i, k) ==> wanted.contains_key(#[trigger] series_at(data, i, k))
            && wanted[series_at(data, i, k)] == (data[i].table, data[i].blocks[k].1)
    &&& forall|i: int, k: int, i2: int, k2: int|
        is_place(data, i, k) && is_place(data, i2, k2) && #[trigger] series_at(data, i, k)
            == #[trigger] series_at(data, i2, k2) ==> i == i2 && k == k2
    &&& forall|sid: u32| wanted.contains_key(sid) ==> #[trigger] lists(data, sid)
}

/// Adds the block of a series under the name of its table: to the chunk of
/// that table where there is one, else to a new chunk.
pub(crate) fn add_block(
    data: &mut Vec<TableChunk>,
    table: String,
    series_id: u32,
    block: DataBlock,
    Ghost(wanted): Ghost<Map<u32, (Seq<char>, BlockView)>>,
)
    requires
        chunks_hold(chunks_view(old(data)@), wanted),
        !wanted.contains_key(series_id),
    ensures
        chunks_hold(chunks_view(final(data)@), wanted.insert(series_id, (table@, block@))),
{
    let ghost before = chunks_view(data@);
    let ghost grown = wanted.insert(series_id, (table@, block@));
    let mut i: usize = 0;
    while i < data.len()
        invariant
            i <= data.len(),
            chunks_view(data@) == before,
            chunks_hold(before, wanted),
            !wanted.contains_key(series_id),
            grown == wanted.insert(series_id, (table@, block@)),
            forall|t: int| 0 <= t < i ==> (#[trigger] before[t]).table != table@,
        decreases data.len() - i,
    {
        if data[i].table == table {
            let ghost held = data[i as int]@;
            let chunk = &mut data[i];
            chunk.blocks.push(SeriesBlock { series_id, block });
            proof {
                let after = chunks_view(data@);
                let n = held.blocks.len() as int;
                assert forall|t: int| 0 <= t < after.len() && t != i implies #[trigger] after[t]
                    == before[t] by {}
                assert forall|a: int, k: int| is_place(after, a, k) implies grown.contains_key(
                    #[trigger] series_at(after, a, k),
                ) && grown[series_at(after, a, k)] == (after[a].table, after[a].blocks[k].1) by {
                    if a == i && k == n {
                    } else {
                        assert(series_at(after, a, k) == series_at(before, a, k));
                    }
                }
                assert forall|a: int, k: int, a2: int, k2: int|
                    is_place(after, a, k) && is_place(after, a2, k2) && #[trigger] series_at(
                        after,
                        a,
                        k,
                    ) == #[trigger] series_at(after, a2, k2) implies a == a2 && k == k2 by {
                    let new1 = a == i && k == n;
                    let new2 = a2 == i && k2 == n;
                    if !new1 {
                        assert(series_at(after, a, k) == series_at(before, a, k));
                    }
                    if !new2 {
                        assert(series_at(after, a2, k2) == series_at(before, a2, k2));
                    }
                }
                assert forall|sid: u32| grown.contains_key(sid) implies #[trigger] lists(
                    after,
                    sid,
                ) by {
                    if sid == series_id {
                        assert(series_at(after, i as int, n) == sid);
                    } else {
                        assert(lists(before, sid));
                        let (a, k) = choose|a: int, k: int|
                            is_place(before, a, k) && #[trigger] series_at(before, a, k) == sid;
                        assert(series_at(after, a, k) == sid);
                    }
                }
                assert forall|a: int|
                    0 <= a < after.len() implies (#[trigger] after[a]).blocks.len() > 0 by {}
            }
            return ;
        }
        i += 1;
    }
    let mut blocks: Vec<SeriesBlock> = Vec::new();
    blocks.push(SeriesBlock { series_id, block });
    data.push(TableChunk { table, blocks });
    proof {
        let after = chunks_view(data@);
        let n = before.len() as int;
        assert forall|t: int| 0 <= t < n implies #[trigger] after[t] == before[t] by {}
        assert forall|a: int, k: int| is_place(after, a, k) implies grown.contains_key(
            #[trigger] series_at(after, a, k),
        ) && grown[series_at(after, a, k)] == (after[a].table, after[a].blocks[k].1) by {
            if a < n {
                assert(series_at(after, a, k) == series_at(before, a, k));
            }
        }
        assert forall|a: int, k: int, a2: int, k2: int|
            is_place(after, a, k) && is_place(after, a2, k2) && #[trigger] series_at(after, a, k)
                == #[trigger] series_at(after, a2, k2) implies a == a2 && k == k2 by {
            if a < n {
                assert(series_at(after, a, k) == series_at(before, a, k));
            }
            if a2 < n {
                assert(series_at(after, a2, k2) == series_at(before, a2, k2));
            }
        }
        assert forall|sid: u32| grown.contains_key(sid) implies #[trigger] lists(after, sid) by {
            if sid == series_id {
                assert(series_at(after, n, 0) == sid);
            } else {
                assert(lists(before, sid));
                let (a, k) = choose|a: int, k: int|
                    is_place(before, a, k) && #[trigger] series_at(before, a, k) == sid;
                assert(series_at(after, a, k) == sid);
            }
        }
    }
}

} // verus!
