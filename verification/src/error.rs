//! The conditions under which the buffer refuses work.

use vstd::prelude::*;

verus! {

/// Why the buffer refused a write, a point or a flush.
#[derive(Clone, Copy, Debug, PartialEq, Eq, Structural)]
pub enum Error {
    /// The shared memory pool has no room for the write.
    MemoryExhausted,
    /// A written point holds no field value at all.
    InvalidPoint,
    /// A field of the latest schema was populated by no row at flush time.
    InvalidSchemaProjection,
    /// A time column holds an absent value.
    IncompleteTimeColumn,
    /// A timestamp does not fit the precision of the table.
    TimestampOverflow,
}

} // verus!
