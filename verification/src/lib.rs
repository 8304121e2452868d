//! Verified core of a schema-and-data migration engine between two relational
//! database engines: type mapping, value-to-literal encoding, byte-budgeted
//! insert batching, and the two-phase bounded-concurrency run plan.

pub mod batch;
pub mod config;
pub mod error;
pub mod format;
pub mod helpers;
pub mod mappings;
pub mod migrate;
pub mod parse;
pub mod query;
pub mod scheduler;
pub mod schema;
pub mod strings;
pub mod table_schema_mapper;

use vstd::prelude::*;

verus! {

/// Number of bytes held back from the packet budget as a safety margin when
/// sizing insert batches.
pub const RESERVED_BYTES: usize = 10;

} // verus!
