//! How an operation on a channel can fail.
use vstd::prelude::*;

verus! {

/// Why nothing was received.
#[derive(PartialEq, Eq, Debug)]
pub enum RecvError {
    /// The channel is closed.
    Closed,
}

/// Why an item was not sent.
#[derive(PartialEq, Eq, Debug)]
pub enum SendError<T> {
    /// The channel is closed.
    Closed(T),
}

/// Why nothing was received at once.
#[derive(PartialEq, Eq, Debug)]
pub enum TryRecvError {
    /// There is no item.
    Empty,
    /// The channel is closed.
    Closed,
}

/// Why an item was not sent at once.
#[derive(PartialEq, Eq, Debug)]
pub enum TrySendError<T> {
    /// There is no room for it.
    Full(T),
    /// The channel is closed.
    Closed(T),
}

/// Why nothing was received in time.
#[derive(PartialEq, Eq, Debug)]
pub enum TryRecvTimeoutError {
    /// The channel is closed.
    Closed,
    /// The time is up.
    TimedOut,
}

/// Why an item was not sent in time.
#[derive(PartialEq, Eq, Debug)]
pub enum TrySendTimeoutError<T> {
    /// The channel is closed.
    Closed(T),
    /// The time is up.
    TimedOut(T),
}

/// Why an operation that waits did not succeed.
#[derive(PartialEq, Eq, Debug)]
pub enum FutureError {
    /// The channel is closed.
    Closed,
}

} // verus!
