//! A sharded work queue kept in a column store: items are spread over a fixed
//! number of tables per category by a rotating cursor, written in batches of
//! bounded size, and removed as they are fetched.
use vstd::prelude::*;

pub mod batch;
pub mod body;
pub mod config;
pub mod fetch;
pub mod gateway;
pub mod random;
pub mod statement;
pub mod store;
pub mod text;

verus! {

/// Size, in characters, past which a batch buffer is flushed.
pub const BATCH_LIMIT: usize = 49500;

} // verus!
