//! Channels.

pub mod blocking;
pub mod chan;
pub mod channel;
pub mod closed;
pub mod effects;
pub mod error;
pub mod future;
pub mod keys;
pub mod laws;
pub mod mask;
pub mod model;
pub mod outcomes;
pub mod queue;
pub mod runs;
pub mod waiter;
