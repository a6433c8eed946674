//! Load generation for concurrent key-value maps: rate pacing, the two map
//! backends behind one contract, and the decisions of the allocation and
//! contention drivers.
use vstd::prelude::*;

pub mod maps;
pub mod contention;
pub mod init;
pub mod pacing;

pub use contention::ContentionFocus;
pub use maps::{ConcurrentMap, OuterMap, Shared, SharedAccess};
pub use pacing::{gap_nanos, ops_per_thread, unix_timestamp_nanos, Pacer};
