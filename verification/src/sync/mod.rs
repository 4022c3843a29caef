//! Locks and signals for threads.

pub mod backoff;
pub mod effects;
pub mod mutex;
pub mod mutex_system;
pub mod padded;
pub mod signal;
pub mod signal_machine;
pub mod signal_system;

pub use backoff::Backoff;
pub use mutex::{Mutex, MutexGuard};
pub use padded::CachePadded;
pub use signal::Signal;
