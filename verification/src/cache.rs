//! The buffer itself: series spread over a fixed number of partitions, a
//! memory reservation, the sequence number of the last write and the
//! one-shot flushing flag.

use crate::error::Error;
use crate::pool::{MemoryPool, MemoryReservation, PoolView};
use crate::row_group::{GroupView, RowGroup};
use crate::schema::{ColumnView, TableColumn};
use crate::series::{SeriesData, SeriesView};
use crate::time_range::TimeRange;
use std::collections::HashMap;
use vstd::prelude::*;
use vstd::std_specs::iter::IteratorSpec;

verus! {

broadcast use vstd::std_specs::hash::group_hash_axioms;

/// The character of a decimal digit.
pub open spec fn digit_char(d: nat) -> char {
    if d == 0 {
        '0'
    } else if d == 1 {
        '1'
    } else if d == 2 {
        '2'
    } else if d == 3 {
        '3'
    } else if d == 4 {
        '4'
    } else if d == 5 {
        '5'
    } else if d == 6 {
        '6'
    } else if d == 7 {
        '7'
    } else if d == 8 {
        '8'
    } else {
        '9'
    }
}

/// The decimal digits of a number, most significant first.
pub open spec fn decimal(n: nat) -> Seq<char>
    decreases n,
{
    if n < 10 {
        seq![digit_char(n)]
    } else {
        decimal(n / 10).push(digit_char(n % 10))
    }
}

/// The name under which a cache reserves memory.
pub open spec fn reservation_name(tf_id: u32, seq: u64) -> Seq<char> {
    seq!['m', 'e', 'm', 'c', 'a', 'c', 'h', 'e', '-'] + decimal(tf_id as nat) + seq!['-']
        + decimal(seq as nat)
}

/// `format!` with two integers: each is written in decimal, without sign
/// or padding, between the literal parts of the name.
#[verifier::external_body]
fn consumer_name(tf_id: u32, seq: u64) -> (name: String)
    ensures
        name@ == reservation_name(tf_id, seq),
{
    format!("memcache-{}-{}", tf_id, seq)
}

/// What the series of one partition stand for.
pub open spec fn partition_view(m: Map<u32, SeriesData>) -> Map<u32, SeriesView> {
    Map::new(|sid: u32| m.contains_key(sid), |sid: u32| m[sid]@)
}

/// The write buffer of one table shard.
#[derive(Debug)]
pub struct MemCache {
    tf_id: u32,
    flushing: bool,
    max_size: u64,
    min_seq_no: u64,
    /// The sequence number of the last write.
    seq_no: u64,
    memory: MemoryReservation,
    part_count: usize,
    partitions: Vec<HashMap<u32, SeriesData>>,
}

/// What a cache stands for.
pub struct CacheView {
    pub tf_id: u32,
    pub flushing: bool,
    pub max_size: u64,
    pub min_seq_no: u64,
    pub seq_no: u64,
    pub reserved: usize,
    pub name: Seq<char>,
    pub partitions: Seq<Map<u32, SeriesView>>,
}

impl View for MemCache {
    type V = CacheView;

    closed spec fn view(&self) -> CacheView {
        CacheView {
            tf_id: self.tf_id,
            flushing: self.flushing,
            max_size: self.max_size,
            min_seq_no: self.min_seq_no,
            seq_no: self.seq_no,
            reserved: self.memory.size,
            name: self.memory.name@,
            partitions: Seq::new(
                self.partitions.len() as nat,
                |p: int| partition_view(self.partitions[p]@),
            ),
        }
    }
}

impl CacheView {
    /// The partition that holds the series with the given id.
    pub open spec fn partition_of(self, sid: u32) -> int {
        (sid as int) % (self.partitions.len() as int)
    }

    /// Whether every series is held by the partition its id routes to, and
    /// under its own id.
    pub open spec fn routed(self) -> bool {
        &&& self.partitions.len() > 0
        &&& forall|p: int, sid: u32|
            0 <= p < self.partitions.len() && #[trigger] self.partitions[p].contains_key(sid)
                ==> p == self.partition_of(sid) && self.partitions[p][sid].series_id == sid
    }

    /// The series that the cache holds, by id.
    pub open spec fn series(self) -> Map<u32, SeriesView> {
        Map::new(
            |sid: u32|
                self.partitions.len() > 0 && self.partitions[self.partition_of(sid)].contains_key(
                    sid,
                ),
            |sid: u32| self.partitions[self.partition_of(sid)][sid],
        )
    }

    /// The state of the series with the given id; a series that was never
    /// written is empty.
    pub open spec fn series_or_empty(self, sid: u32) -> SeriesView {
        if self.series().contains_key(sid) {
            self.series()[sid]
        } else {
            SeriesView::empty(sid)
        }
    }

    /// The cache with the state of one series replaced or added.
    pub open spec fn with_series(self, sid: u32, s: SeriesView) -> CacheView {
        CacheView {
            partitions: self.partitions.update(
                self.partition_of(sid),
                self.partitions[self.partition_of(sid)].insert(sid, s),
            ),
            ..self
        }
    }

    /// The cache after a write of `group` to the series `sid` under the
    /// sequence number `seq` for which memory was granted.
    pub open spec fn write(self, sid: u32, seq: u64, group: GroupView) -> CacheView {
        CacheView {
            seq_no: seq,
            reserved: (self.reserved + group.size) as usize,
            ..self.with_series(sid, self.series_or_empty(sid).write(group))
        }
    }

    /// The cache after a write that was refused: only the sequence number
    /// moved.
    pub open spec fn refused(self, seq: u64) -> CacheView {
        CacheView { seq_no: seq, ..self }
    }
}

impl MemCache {
    /// Whether the cache is well formed: it has partitions, and each series
    /// is where its id routes to.
    pub closed spec fn wf(&self) -> bool {
        &&& self.part_count == self.partitions.len()
        &&& self@.routed()
    }

    /// A well-formed cache routes every series by its id.
    pub proof fn lemma_wf_routed(&self)
        requires
            self.wf(),
        ensures
            self@.routed(),
    {
    }

    /// An empty cache of `part_count` partitions that starts at the
    /// sequence number `seq`, with a reservation of no bytes under the
    /// cache's name. A reservation of no bytes takes nothing from the pool.
    pub fn new(tf_id: u32, max_size: u64, part_count: usize, seq: u64, pool: &MemoryPool) -> (r:
        MemCache)
        requires
            part_count > 0,
        ensures
            r.wf(),
            r@ == (CacheView {
                tf_id,
                flushing: false,
                max_size,
                min_seq_no: seq,
                seq_no: seq,
                reserved: 0,
                name: reservation_name(tf_id, seq),
                partitions: Seq::new(part_count as nat, |p: int| Map::empty()),
            }),
            r@.series() == Map::<u32, SeriesView>::empty(),
    {
        let mut partitions: Vec<HashMap<u32, SeriesData>> = Vec::with_capacity(part_count);
        let mut i: usize = 0;
        while i < part_count
            invariant
                i <= part_count,
                partitions.len() == i,
                forall|p: int| 0 <= p < i ==> (#[trigger] partitions[p])@ == Map::<
                    u32,
                    SeriesData,
                >::empty(),
            decreases part_count - i,
        {
            partitions.push(HashMap::new());
            i += 1;
        }
        let memory = MemoryReservation { name: consumer_name(tf_id, seq), size: 0 };
        let r = MemCache {
            tf_id,
            flushing: false,
            max_size,
            min_seq_no: seq,
            seq_no: seq,
            memory,
            part_count,
            partitions,
        };
        proof {
            assert forall|p: int| 0 <= p < part_count implies #[trigger] r@.partitions[p]
                == Map::<u32, SeriesView>::empty() by {}
            assert(r@.partitions =~= Seq::new(part_count as nat, |p: int| Map::empty()));
        }
        r
    }

    pub fn tf_id(&self) -> (r: u32)
        ensures
            r == self@.tf_id,
    {
        self.tf_id
    }

    /// The sequence number of the last write.
    pub fn seq_no(&self) -> (r: u64)
        ensures
            r == self@.seq_no,
    {
        self.seq_no
    }

    /// The sequence number the cache started at.
    pub fn min_seq_no(&self) -> (r: u64)
        ensures
            r == self@.min_seq_no,
    {
        self.min_seq_no
    }

    pub fn max_buf_size(&self) -> (r: u64)
        ensures
            r == self@.max_size,
    {
        self.max_size
    }

    /// The bytes reserved so far.
    pub fn cache_size(&self) -> (r: u64)
        ensures
            r == self@.reserved,
    {
        self.memory.size as u64
    }

    /// Whether the reservation has reached the configured size.
    pub fn is_full(&self) -> (r: bool)
        ensures
            r == (self@.reserved >= self@.max_size),
    {
        self.memory.size as u64 >= self.max_size
    }

    pub fn is_flushing(&self) -> (r: bool)
        ensures
            r == self@.flushing,
    {
        self.flushing
    }

    /// Marks the cache as flushing. Only the call that finds it unmarked
    /// returns `true`.
    pub fn mark_flushing(&mut self) -> (r: bool)
        ensures
            r == !old(self)@.flushing,
            final(self)@ == (CacheView { flushing: true, ..old(self)@ }),
            old(self).wf() ==> final(self).wf(),
    {
        let won = !self.flushing;
        self.flushing = true;
        won
    }

    /// The name under which the cache reserves memory.
    pub fn reservation_name(&self) -> (r: &String)
        ensures
            r@ == self@.name,
    {
        &self.memory.name
    }

    /// The number of partitions.
    pub fn part_count(&self) -> (r: usize)
        requires
            self.wf(),
        ensures
            r == self@.partitions.len(),
            r > 0,
    {
        self.part_count
    }

    /// The partition that the series id routes to.
    pub fn partition_index(&self, sid: u32) -> (r: usize)
        requires
            self.wf(),
        ensures
            r == self@.partition_of(sid),
            r < self@.partitions.len(),
    {
        (sid as usize) % self.part_count
    }
}

impl MemCache {
    /// The buffered state of the series with the given id, if it was ever
    /// written.
    pub fn get_series(&self, sid: u32) -> (r: Option<&SeriesData>)
        requires
            self.wf(),
        ensures
            match r {
                Some(s) => self@.series().contains_key(sid) && self@.series()[sid] == s@,
                None => !self@.series().contains_key(sid),
            },
    {
        let index = (sid as usize) % self.part_count;
        self.partitions[index].get(&sid)
    }

    /// The series of one partition, by id.
    pub fn partition(&self, index: usize) -> (r: &HashMap<u32, SeriesData>)
        requires
            self.wf(),
            index < self@.partitions.len(),
        ensures
            partition_view(r@) == self@.partitions[index as int],
    {
        &self.partitions[index]
    }

    /// Takes the series out of its partition, or starts an empty one.
    fn take_series(&mut self, sid: u32) -> (s: SeriesData)
        requires
            old(self).wf(),
        ensures
            s@ == old(self)@.series_or_empty(sid),
            final(self).part_count == old(self).part_count,
            final(self).partitions.len() == old(self).partitions.len(),
            final(self).tf_id == old(self).tf_id,
            final(self).flushing == old(self).flushing,
            final(self).max_size == old(self).max_size,
            final(self).min_seq_no == old(self).min_seq_no,
            final(self).seq_no == old(self).seq_no,
            final(self).memory == old(self).memory,
            forall|p: int|
                0 <= p < old(self).partitions.len()
                    ==> (#[trigger] final(self).partitions[p])@ == if p == old(
                    self,
                )@.partition_of(sid) {
                    old(self).partitions[p]@.remove(sid)
                } else {
                    old(self).partitions[p]@
                },
    {
        let index = (sid as usize) % self.part_count;
        let part = &mut self.partitions[index];
        match part.remove(&sid) {
            Some(s) => s,
            None => SeriesData::new(sid),
        }
    }

    /// Puts the series into the partition its id routes to.
    fn put_series(&mut self, sid: u32, series: SeriesData)
        requires
            old(self).part_count == old(self).partitions.len(),
            old(self).part_count > 0,
        ensures
            final(self).part_count == old(self).part_count,
            final(self).partitions.len() == old(self).partitions.len(),
            final(self).tf_id == old(self).tf_id,
            final(self).flushing == old(self).flushing,
            final(self).max_size == old(self).max_size,
            final(self).min_seq_no == old(self).min_seq_no,
            final(self).seq_no == old(self).seq_no,
            final(self).memory == old(self).memory,
            forall|p: int|
                0 <= p < old(self).partitions.len()
                    ==> (#[trigger] final(self).partitions[p])@ == if p == (sid as int) % (old(
                    self,
                ).part_count as int) {
                    old(self).partitions[p]@.insert(sid, series)
                } else {
                    old(self).partitions[p]@
                },
    {
        let index = (sid as usize) % self.part_count;
        let part = &mut self.partitions[index];
        part.insert(sid, series);
    }

    /// Writes the group to the series `sid`. The sequence number moves to
    /// `seq` whatever comes of the write. Where the pool cannot grant
    /// `group.size` more bytes the write is refused and no series changes;
    /// else the reservation grows by that much and the group is merged into
    /// the series, which is created on its first write.
    pub fn write_group(&mut self, pool: &mut MemoryPool, sid: u32, seq: u64, group: RowGroup) -> (r:
        Result<(), Error>)
        requires
            old(self).wf(),
        ensures
            final(self).wf(),
            r is Ok <==> old(pool)@.has_room(group.size) && old(self)@.reserved + group.size
                <= usize::MAX,
            match r {
                Ok(()) => {
                    &&& final(self)@ == old(self)@.write(sid, seq, group@)
                    &&& final(pool)@ == (PoolView {
                        pool_size: old(pool)@.pool_size,
                        used: (old(pool)@.used + group.size) as usize,
                    })
                },
                Err(e) => {
                    &&& e == Error::MemoryExhausted
                    &&& final(self)@ == old(self)@.refused(seq)
                    &&& final(pool)@ == old(pool)@
                },
            },
    {
        self.seq_no = seq;
        match self.memory.try_grow(pool, group.size) {
            Ok(()) => {},
            Err(_) => {
                return Err(Error::MemoryExhausted);
            },
        }
        let mut series = self.take_series(sid);
        series.write(group);
        self.put_series(sid, series);
        proof {
            let target = old(self)@.write(sid, seq, group@);
            assert forall|p: int|
                0 <= p < self@.partitions.len() implies #[trigger] self@.partitions[p]
                == target.partitions[p] by {}
            assert(self@.partitions =~= target.partitions);
        }
        Ok(())
    }
}

/// A change to the buffered state of one series.
pub enum SeriesOp {
    /// Drop the field column with the id.
    DropColumn(u32),
    /// Redefine the column with the name.
    ChangeColumn(Seq<char>, ColumnView),
    /// Add the column.
    AddColumn(ColumnView),
    /// Delete the rows in the closed time range.
    Delete(TimeRange),
}

impl SeriesOp {
    /// The series after the change.
    pub open spec fn apply(self, s: SeriesView) -> SeriesView {
        match self {
            SeriesOp::DropColumn(id) => s.drop_column(id),
            SeriesOp::ChangeColumn(name, col) => s.change_column(name, col),
            SeriesOp::AddColumn(col) => s.add_column(col),
            SeriesOp::Delete(range) => s.delete_series(range),
        }
    }
}

/// The high half of a field id: the id of the column.
pub open spec fn column_of(field_id: u64) -> u32 {
    (field_id / 0x1_0000_0000) as u32
}

/// The low half of a field id: the id of the series.
pub open spec fn series_of(field_id: u64) -> u32 {
    (field_id % 0x1_0000_0000) as u32
}

/// Splits a field id into the id of the column and the id of the series.
pub fn split_id(field_id: u64) -> (r: (u32, u32))
    ensures
        r.0 == column_of(field_id),
        r.1 == series_of(field_id),
{
    let high: u64 = field_id >> 32;
    let low: u64 = field_id & 0xFFFF_FFFF;
    assert(high == field_id / 0x1_0000_0000 && high <= 0xFFFF_FFFF) by (bit_vector)
        requires
            high == field_id >> 32,
    ;
    assert(low == field_id % 0x1_0000_0000 && low <= 0xFFFF_FFFF) by (bit_vector)
        requires
            low == field_id & 0xFFFF_FFFF,
    ;
    (high as u32, low as u32)
}

impl CacheView {
    /// The cache after the change was made to the series `sid`. A series
    /// that the cache does not hold is not created.
    pub open spec fn change(self, sid: u32, op: SeriesOp) -> CacheView {
        if self.series().contains_key(sid) {
            self.with_series(sid, op.apply(self.series()[sid]))
        } else {
            self
        }
    }

    /// The cache after the change was made to the first `n` of the series,
    /// one after the other.
    pub open spec fn change_all(self, sids: Seq<u32>, op: SeriesOp, n: int) -> CacheView
        decreases n,
    {
        if n <= 0 || n > sids.len() {
            self
        } else {
            self.change_all(sids, op, n - 1).change(sids[n - 1], op)
        }
    }

    /// The cache after the columns named by the first `n` field ids were
    /// dropped, one after the other.
    pub open spec fn drop_all(self, field_ids: Seq<u64>, n: int) -> CacheView
        decreases n,
    {
        if n <= 0 || n > field_ids.len() {
            self
        } else {
            self.drop_all(field_ids, n - 1).change(
                series_of(field_ids[n - 1]),
                SeriesOp::DropColumn(column_of(field_ids[n - 1])),
            )
        }
    }
}

impl MemCache {
    /// Whether the cache holds the series.
    fn holds(&self, sid: u32) -> (b: bool)
        requires
            self.wf(),
        ensures
            b == self@.series().contains_key(sid),
    {
        self.get_series(sid).is_some()
    }

    /// Puts back a series that was taken out and changed.
    fn restore(&mut self, sid: u32, series: SeriesData, Ghost(before): Ghost<CacheView>)
        requires
            old(self).part_count == old(self).partitions.len(),
            old(self).part_count == before.partitions.len(),
            before.routed(),
            before.series().contains_key(sid),
            series@.series_id == sid,
            old(self).tf_id == before.tf_id,
            old(self).flushing == before.flushing,
            old(self).max_size == before.max_size,
            old(self).min_seq_no == before.min_seq_no,
            old(self).seq_no == before.seq_no,
            old(self).memory.size == before.reserved,
            old(self).memory.name@ == before.name,
            forall|p: int|
                0 <= p < before.partitions.len() ==> partition_view(
                    (#[trigger] old(self).partitions[p])@,
                ) == if p == before.partition_of(sid) {
                    before.partitions[p].remove(sid)
                } else {
                    before.partitions[p]
                },
        ensures
            final(self).wf(),
            final(self)@ == before.with_series(sid, series@),
    {
        self.put_series(sid, series);
        proof {
            let target = before.with_series(sid, series@);
            assert forall|p: int|
                0 <= p < self@.partitions.len() implies #[trigger] self@.partitions[p]
                == target.partitions[p] by {
                if p == before.partition_of(sid) {
                    assert(before.partitions[p].remove(sid).insert(sid, series@)
                        =~= before.partitions[p].insert(sid, series@));
                }
            }
            assert(self@.partitions =~= target.partitions);
        }
    }

    /// Takes out a series that the cache holds, to change it and put it
    /// back.
    fn take_held(&mut self, sid: u32) -> (series: SeriesData)
        requires
            old(self).wf(),
            old(self)@.series().contains_key(sid),
        ensures
            series@ == old(self)@.series()[sid],
            series@.series_id == sid,
            final(self).part_count == final(self).partitions.len(),
            final(self).part_count == old(self)@.partitions.len(),
            final(self).tf_id == old(self)@.tf_id,
            final(self).flushing == old(self)@.flushing,
            final(self).max_size == old(self)@.max_size,
            final(self).min_seq_no == old(self)@.min_seq_no,
            final(self).seq_no == old(self)@.seq_no,
            final(self).memory.size == old(self)@.reserved,
            final(self).memory.name@ == old(self)@.name,
            forall|p: int|
                0 <= p < old(self)@.partitions.len() ==> partition_view(
                    (#[trigger] final(self).partitions[p])@,
                ) == if p == old(self)@.partition_of(sid) {
                    old(self)@.partitions[p].remove(sid)
                } else {
                    old(self)@.partitions[p]
                },
    {
        let series = self.take_series(sid);
        series
    }

    /// Drops the column from the series, if the cache holds it.
    fn drop_column_of(&mut self, sid: u32, column_id: u32)
        requires
            old(self).wf(),
        ensures
            final(self).wf(),
            final(self)@ == old(self)@.change(sid, SeriesOp::DropColumn(column_id)),
    {
        if self.holds(sid) {
            let ghost before = self@;
            let mut series = self.take_held(sid);
            series.drop_column(column_id);
            self.restore(sid, series, Ghost(before));
        }
    }

    /// Redefines the column in the series, if the cache holds it.
    fn change_column_of(&mut self, sid: u32, column_name: &str, new_column: &TableColumn)
        requires
            old(self).wf(),
        ensures
            final(self).wf(),
            final(self)@ == old(self)@.change(
                sid,
                SeriesOp::ChangeColumn(column_name@, new_column@),
            ),
    {
        if self.holds(sid) {
            let ghost before = self@;
            let mut series = self.take_held(sid);
            series.change_column(column_name, new_column);
            self.restore(sid, series, Ghost(before));
        }
    }

    /// Adds the column to the series, if the cache holds it.
    fn add_column_of(&mut self, sid: u32, new_column: &TableColumn)
        requires
            old(self).wf(),
        ensures
            final(self).wf(),
            final(self)@ == old(self)@.change(sid, SeriesOp::AddColumn(new_column@)),
    {
        if self.holds(sid) {
            let ghost before = self@;
            let mut series = self.take_held(sid);
            series.add_column(new_column);
            self.restore(sid, series, Ghost(before));
        }
    }

    /// Deletes the range from the series, if the cache holds it.
    fn delete_series_of(&mut self, sid: u32, range: &TimeRange)
        requires
            old(self).wf(),
        ensures
            final(self).wf(),
            final(self)@ == old(self)@.change(sid, SeriesOp::Delete(*range)),
    {
        if self.holds(sid) {
            let ghost before = self@;
            let mut series = self.take_held(sid);
            series.delete_series(range);
            self.restore(sid, series, Ghost(before));
        }
    }

    /// Drops columns: each field id names a column and the series to drop
    /// it from. Series that the cache does not hold are passed over.
    pub fn drop_columns(&mut self, field_ids: &[u64])
        requires
            old(self).wf(),
        ensures
            final(self).wf(),
            final(self)@ == old(self)@.drop_all(field_ids@, field_ids@.len() as int),
    {
        let mut i: usize = 0;
        while i < field_ids.len()
            invariant
                i <= field_ids.len(),
                self.wf(),
                self@ == old(self)@.drop_all(field_ids@, i as int),
            decreases field_ids.len() - i,
        {
            let (column_id, sid) = split_id(field_ids[i]);
            self.drop_column_of(sid, column_id);
            i += 1;
        }
    }

    /// Redefines the named column in each of the series. Series that the
    /// cache does not hold are passed over.
    pub fn change_column(&mut self, sids: &[u32], column_name: &str, new_column: &TableColumn)
        requires
            old(self).wf(),
        ensures
            final(self).wf(),
            final(self)@ == old(self)@.change_all(
                sids@,
                SeriesOp::ChangeColumn(column_name@, new_column@),
                sids@.len() as int,
            ),
    {
        let mut i: usize = 0;
        while i < sids.len()
            invariant
                i <= sids.len(),
                self.wf(),
                self@ == old(self)@.change_all(
                    sids@,
                    SeriesOp::ChangeColumn(column_name@, new_column@),
                    i as int,
                ),
            decreases sids.len() - i,
        {
            self.change_column_of(sids[i], column_name, new_column);
            i += 1;
        }
    }

    /// Adds the column to each of the series. Series that the cache does
    /// not hold are passed over.
    pub fn add_column(&mut self, sids: &[u32], new_column: &TableColumn)
        requires
            old(self).wf(),
        ensures
            final(self).wf(),
            final(self)@ == old(self)@.change_all(
                sids@,
                SeriesOp::AddColumn(new_column@),
                sids@.len() as int,
            ),
    {
        let mut i: usize = 0;
        while i < sids.len()
            invariant
                i <= sids.len(),
                self.wf(),
                self@ == old(self)@.change_all(sids@, SeriesOp::AddColumn(new_column@), i as int),
            decreases sids.len() - i,
        {
            self.add_column_of(sids[i], new_column);
            i += 1;
        }
    }

    /// Deletes the rows in the closed time range from each of the series.
    /// Series that the cache does not hold are passed over.
    pub fn delete_series(&mut self, sids: &[u32], range: &TimeRange)
        requires
            old(self).wf(),
        ensures
            final(self).wf(),
            final(self)@ == old(self)@.change_all(
                sids@,
                SeriesOp::Delete(*range),
                sids@.len() as int,
            ),
    {
        let mut i: usize = 0;
        while i < sids.len()
            invariant
                i <= sids.len(),
                self.wf(),
                self@ == old(self)@.change_all(sids@, SeriesOp::Delete(*range), i as int),
            decreases sids.len() - i,
        {
            self.delete_series_of(sids[i], range);
            i += 1;
        }
    }
}

impl MemCache {
    /// The ids of the series that the cache holds, each once, partition
    /// after partition.
    pub fn series_ids(&self) -> (ids: Vec<u32>)
        requires
            self.wf(),
        ensures
            ids@.no_duplicates(),
            ids@.to_set() == self@.series().dom(),
    {
        let mut ids: Vec<u32> = Vec::new();
        let mut p: usize = 0;
        while p < self.partitions.len()
            invariant
                p <= self.partitions.len(),
                self.wf(),
                ids@.no_duplicates(),
                forall|sid: u32|
                    ids@.contains(sid) <==> self@.series().contains_key(sid)
                        && self@.partition_of(sid) < p,
            decreases self.partitions.len() - p,
        {
            let part = &self.partitions[p];
            let ghost held = ids@;
            let ghost all: Seq<u32> = part.keys().remaining().unref();
            for k in it: part.keys()
                invariant
                    all == it.seq().unref(),
                    all.to_set() == part@.dom(),
                    all.no_duplicates(),
                    ids@ == held + all.take(it.index() as int),
                    ids@.no_duplicates(),
                    self.wf(),
                    p < self.partitions.len(),
                    self@.partitions[p as int] == partition_view(part@),
                    forall|sid: u32|
                        held.contains(sid) <==> self@.series().contains_key(sid)
                            && self@.partition_of(sid) < p,
            {
                let ghost before = ids@;
                proof {
                    assert(self@.partitions[p as int].contains_key(*k));
                    assert forall|t: int| 0 <= t < before.len() implies before[t] != *k by {
                        if t >= held.len() {
                        } else {
                            assert(held.contains(before[t]));
                        }
                    }
                }
                ids.push(*k);
            }
            proof {
                assert forall|sid: u32|
                    ids@.contains(sid) <==> self@.series().contains_key(sid)
                        && self@.partition_of(sid) < p + 1 by {
                    if ids@.contains(sid) {
                        let t = choose|t: int| 0 <= t < ids@.len() && ids@[t] == sid;
                        if t < held.len() {
                            assert(held.contains(sid));
                        } else {
                            assert(self@.partitions[p as int].contains_key(sid));
                        }
                    }
                    if self@.series().contains_key(sid) && self@.partition_of(sid) < p + 1 {
                        if self@.partition_of(sid) < p {
                            assert(held.contains(sid));
                            let t = choose|t: int| 0 <= t < held.len() && held[t] == sid;
                            assert(ids@[t] == sid);
                        } else {
                            let t = choose|t: int| 0 <= t < all.len() && all[t] == sid;
                            assert(ids@[held.len() + t] == sid);
                        }
                    }
                }
            }
            p += 1;
        }
        ids
    }

    /// The series that the cache holds, each with its id.
    pub fn read_series_data(&self) -> (r: Vec<(u32, &SeriesData)>)
        requires
            self.wf(),
        ensures
            r.len() == self@.series().dom().len(),
            forall|i: int|
                0 <= i < r.len() ==> self@.series().contains_key((#[trigger] r[i]).0)
                    && self@.series()[r[i].0] == r[i].1@,
            forall|i: int, j: int| 0 <= i < j < r.len() ==> r[i].0 != r[j].0,
            forall|sid: u32|
                self@.series().contains_key(sid) ==> exists|i: int|
                    0 <= i < r.len() && (#[trigger] r[i]).0 == sid,
    {
        let ids = self.series_ids();
        let mut out: Vec<(u32, &SeriesData)> = Vec::with_capacity(ids.len());
        let mut i: usize = 0;
        while i < ids.len()
            invariant
                i <= ids.len(),
                self.wf(),
                ids@.to_set() == self@.series().dom(),
                out.len() == i,
                forall|t: int|
                    0 <= t < i ==> (#[trigger] out[t]).0 == ids[t] && self@.series()[ids[t]]
                        == out[t].1@,
            decreases ids.len() - i,
        {
            let sid = ids[i];
            match self.get_series(sid) {
                Some(series) => {
                    out.push((sid, series));
                },
                None => {},
            }
            i += 1;
        }
        proof {
            ids@.unique_seq_to_set();
            assert forall|sid: u32| self@.series().contains_key(sid) implies exists|t: int|
                0 <= t < out.len() && (#[trigger] out[t]).0 == sid by {
                let t = choose|t: int| 0 <= t < ids@.len() && ids@[t] == sid;
                assert(out[t].0 == sid);
            }
        }
        out
    }

    /// Whether the cache holds no series.
    pub fn is_empty(&self) -> (b: bool)
        requires
            self.wf(),
        ensures
            b == (self@.series().dom() == Set::<u32>::empty()),
    {
        let mut p: usize = 0;
        while p < self.partitions.len()
            invariant
                p <= self.partitions.len(),
                self.wf(),
                forall|q: int| 0 <= q < p ==> (#[trigger] self@.partitions[q]).dom() == Set::<
                    u32,
                >::empty(),
            decreases self.partitions.len() - p,
        {
            let part = &self.partitions[p];
            if !part.is_empty() {
                proof {
                    let sid = part@.dom().choose();
                    assert(self@.partitions[p as int].contains_key(sid));
                    assert(self@.series().dom().contains(sid));
                }
                return false;
            }
            p += 1;
        }
        assert(self@.series().dom() =~= Set::<u32>::empty());
        true
    }
}

} // verus!
