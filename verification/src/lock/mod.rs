//! The lock that guards a channel.

pub mod access;
pub mod acquire;
pub mod guarded;
pub mod lone;
pub mod memory;
pub mod release;
pub mod steps;
pub mod system;
pub mod value;
pub mod word;
