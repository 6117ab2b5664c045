use vstd::prelude::*;

verus! {

/// The smallest number of workers a pool may have.
pub const MIN_POOL_SIZE: usize = 1;

/// The largest number of workers a pool may have.
pub const MAX_POOL_SIZE: usize = 256;

/// Whether `size` workers make a valid pool.
pub open spec fn valid_pool_size(size: int) -> bool {
    MIN_POOL_SIZE <= size <= MAX_POOL_SIZE
}

/// The error returned when a pool is asked for a number of workers outside
/// the accepted range.
#[derive(Clone, Copy, Debug, PartialEq, Eq, Structural)]
pub struct InvalidPoolSizeError;

impl InvalidPoolSizeError {
    /// The human-readable description of this error.
    pub fn message(&self) -> (r: String)
        ensures
            r@ == "Invalid thread pool size."@,
    {
        String::from_str("Invalid thread pool size.")
    }
}

/// Accepts `size` as a number of workers when it lies in
/// `[MIN_POOL_SIZE, MAX_POOL_SIZE]`, and rejects it otherwise.
pub fn check_pool_size(size: usize) -> (r: Result<usize, InvalidPoolSizeError>)
    ensures
        r is Ok <==> valid_pool_size(size as int),
        r is Ok ==> r->Ok_0 == size,
{
    if size < MIN_POOL_SIZE || size > MAX_POOL_SIZE {
        Err(InvalidPoolSizeError)
    } else {
        Ok(size)
    }
}

} // verus!
