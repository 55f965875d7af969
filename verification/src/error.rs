//! The error a pool configuration can be rejected with.
use vstd::prelude::*;

verus! {

/// Largest number of slots a pool may have.
pub const MAX_POOL_SIZE: usize = 100;

/// A pool size is valid when it is at least one and at most [`MAX_POOL_SIZE`].
pub open spec fn valid_size(size: usize) -> bool {
    0 < size <= MAX_POOL_SIZE
}

/// Why a pool could not be configured.
#[derive(Debug)]
pub enum SurfPoolError {
    /// The requested size is zero or larger than [`MAX_POOL_SIZE`]; the
    /// rejected size is carried along.
    SizeNotValid(usize),
}

} // verus!
