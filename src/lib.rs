use vstd::prelude::*;

pub mod filter_map;
pub mod parallel_map;
pub mod partition;
pub mod pool_size;
pub mod results;
pub mod task_queue;
pub mod worker;

verus! {

} // verus!
