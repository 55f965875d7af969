//! A bounded pool of HTTP clients.
//!
//! A pool owns a fixed number of slots, each holding one client behind an
//! exclusive lock, and an admission semaphore with one permit per slot. A
//! caller first obtains a permit and then claims the first slot whose lock is
//! free; the resulting handler gives access to the client and returns the
//! lock and the permit when it goes out of scope.
//!
//! The modules [`builder`], [`pool`] and [`scan`] hold the executable pool,
//! [`trusted`] the contracts it takes on trust from the crates it is built
//! on, and [`protocol`], [`safety`] and [`laws`] the proof that the way
//! callers, the semaphore and the locks work together is safe.
pub mod builder;
pub mod counting;
pub mod error;
pub mod laws;
pub mod pool;
pub mod protocol;
pub mod safety;
pub mod scan;
pub mod trusted;

pub use crate::builder::{
    cold_pool, BuilderView, PoolSetup, SetupStep, SetupView, SurfPoolBuilder, WarmupCall,
    WarmupView,
};
pub use crate::error::{valid_size, SurfPoolError, MAX_POOL_SIZE};
pub use crate::pool::{Handler, HandlerView, PoolView, SurfPool};
pub use crate::scan::first_claim;
