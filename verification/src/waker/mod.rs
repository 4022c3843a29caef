//! How a waiting task is woken.

pub mod atomic;
pub mod effects;
pub mod machine;
pub mod system;
