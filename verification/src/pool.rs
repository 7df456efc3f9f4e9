//! The memory budget that the buffers of a process share.

use crate::error::Error;
use vstd::prelude::*;

verus! {

/// A budget of bytes out of which reservations grow.
#[derive(Debug)]
pub struct MemoryPool {
    pool_size: usize,
    used: usize,
}

/// What a pool stands for.
pub struct PoolView {
    pub pool_size: usize,
    pub used: usize,
}

impl View for MemoryPool {
    type V = PoolView;

    closed spec fn view(&self) -> PoolView {
        PoolView { pool_size: self.pool_size, used: self.used }
    }
}

impl PoolView {
    /// Whether the pool has room for `additional` more bytes.
    pub open spec fn has_room(self, additional: usize) -> bool {
        self.used + additional <= self.pool_size
    }
}

impl MemoryPool {
    /// A pool of `pool_size` bytes of which none is in use.
    pub fn new(pool_size: usize) -> (p: MemoryPool)
        ensures
            p@ == (PoolView { pool_size, used: 0 }),
    {
        MemoryPool { pool_size, used: 0 }
    }

    /// The bytes in use.
    pub fn reserved(&self) -> (n: usize)
        ensures
            n == self@.used,
    {
        self.used
    }

    /// The size of the pool.
    pub fn max_size(&self) -> (n: usize)
        ensures
            n == self@.pool_size,
    {
        self.pool_size
    }

    /// Takes `additional` bytes into use where the pool has room for them,
    /// and changes nothing where it has not.
    pub fn try_grow(&mut self, additional: usize) -> (r: Result<(), Error>)
        ensures
            r is Ok <==> old(self)@.has_room(additional),
            r is Err ==> r == Err::<(), Error>(Error::MemoryExhausted) && final(self)@ == old(
                self,
            )@,
            r is Ok ==> final(self)@ == (PoolView {
                pool_size: old(self)@.pool_size,
                used: (old(self)@.used + additional) as usize,
            }),
    {
        match self.used.checked_add(additional) {
            Some(wanted) => {
                if wanted <= self.pool_size {
                    self.used = wanted;
                    Ok(())
                } else {
                    Err(Error::MemoryExhausted)
                }
            },
            None => Err(Error::MemoryExhausted),
        }
    }
}

/// The share of a pool that one consumer has taken, under the consumer's
/// name.
#[derive(Debug)]
pub struct MemoryReservation {
    pub name: String,
    pub size: usize,
}

impl MemoryReservation {
    /// The bytes reserved.
    pub fn size(&self) -> (n: usize)
        ensures
            n == self.size,
    {
        self.size
    }

    /// Grows the reservation by `capacity` bytes out of the pool. Where the
    /// pool has no room, or the reservation cannot count that many bytes,
    /// nothing changes.
    pub fn try_grow(&mut self, pool: &mut MemoryPool, capacity: usize) -> (r: Result<(), Error>)
        ensures
            r is Ok <==> old(pool)@.has_room(capacity) && old(self).size + capacity <= usize::MAX,
            r is Err ==> r == Err::<(), Error>(Error::MemoryExhausted) && *final(self) == *old(
                self,
            ) && final(pool)@ == old(pool)@,
            r is Ok ==> final(self).name == old(self).name && final(self).size == old(self).size
                + capacity && final(pool)@ == (PoolView {
                pool_size: old(pool)@.pool_size,
                used: (old(pool)@.used + capacity) as usize,
            }),
    {
        match self.size.checked_add(capacity) {
            Some(grown) => match pool.try_grow(capacity) {
                Ok(()) => {
                    self.size = grown;
                    Ok(())
                },
                Err(e) => Err(e),
            },
            None => Err(Error::MemoryExhausted),
        }
    }
}

} // verus!
