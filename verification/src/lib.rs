//! In-memory write buffer of a time-series storage engine.
//!
//! Rows are absorbed per series, kept grouped by schema version, accounted
//! against a shared memory budget and turned into time-sorted columnar
//! blocks when the buffer is flushed.

pub mod align;
pub mod block;
pub mod cache;
pub mod cache_flush;
pub mod cache_laws;
pub mod chunk;
pub mod dedup;
pub mod error;
pub mod field_value;
pub mod flush;
pub mod point;
pub mod pool;
pub mod row;
pub mod row_group;
pub mod scan;
pub mod schema;
pub mod series;
pub mod series_values;
pub mod statistics;
pub mod table_schema;
pub mod time_range;
