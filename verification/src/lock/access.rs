//! What a thread that takes or leaves the lock asks of the memory it shares, and what it gets
//! back.
use vstd::prelude::*;

verus! {

/// One access to the shared memory of a lock, or one pause of the thread.
///
/// A waiter is named by its address. `Link`, `LoadNotified` and `Rearm` are about the waiter of
/// the thread that makes the access.
#[derive(Clone, Copy, PartialEq, Eq, Debug)]
pub enum Access {
    /// Swaps `LOCKED` into the low byte of the word; answered by `Byte`.
    SwapByte,
    /// Stores `UNLOCKED` into the low byte of the word; answered by `Done`.
    StoreByte,
    /// Loads the word; answered by `Word`.
    Load,
    /// Replaces the word by `new` where it is `current`; answered by `Exchanged`, or by
    /// `Observed` with the word as it is. It may fail though the word is `current`.
    Exchange { current: usize, new: usize },
    /// Takes `WAKING` off the word; answered by `Word` with the word as it was.
    FetchSub,
    /// Sets two links of the own waiter; answered by `Done`.
    Link { next: Option<usize>, tail: Option<usize> },
    /// Loads the flag of the own waiter; answered by `Flag`.
    LoadNotified,
    /// Clears the flag of the own waiter and its link to a newer one; answered by `Done`.
    Rearm,
    /// Reads the link to the next older waiter; answered by `Address`.
    GetNext(usize),
    /// Reads the link to the next newer waiter; answered by `Address`.
    GetPrev(usize),
    /// Reads the link to the oldest waiter; answered by `Address`.
    GetTail(usize),
    /// Sets the link of the first waiter to the next newer one; answered by `Done`.
    SetPrev(usize, usize),
    /// Sets the link of the first waiter to the oldest one; answered by `Done`.
    SetTail(usize, usize),
    /// Sets the flag of a waiter and unparks its thread; answered by `Done`.
    Notify(usize),
    /// Tells the processor that the thread spins, so many times; answered by `Done`.
    SpinHint(u32),
    /// Yields the rest of the time slice; answered by `Done`.
    Yield,
    /// Parks the thread until it is unparked, or for no reason at all; answered by `Done`.
    Park,
}

/// The answer to an access.
#[derive(Clone, Copy, PartialEq, Eq, Debug)]
pub enum Reply {
    Done,
    Byte(u8),
    Word(usize),
    Exchanged,
    Observed(usize),
    Flag(bool),
    Address(Option<usize>),
}

/// Whether `reply` is of the kind that answers `access`.
pub open spec fn answers(reply: Reply, access: Access) -> bool {
    match access {
        Access::SwapByte => reply is Byte,
        Access::StoreByte => reply is Done,
        Access::Load => reply is Word,
        Access::Exchange { .. } => reply is Exchanged || reply is Observed,
        Access::FetchSub => reply is Word,
        Access::Link { .. } => reply is Done,
        Access::LoadNotified => reply is Flag,
        Access::Rearm => reply is Done,
        Access::GetNext(_) => reply is Address,
        Access::GetPrev(_) => reply is Address,
        Access::GetTail(_) => reply is Address,
        Access::SetPrev(_, _) => reply is Done,
        Access::SetTail(_, _) => reply is Done,
        Access::Notify(_) => reply is Done,
        Access::SpinHint(_) => reply is Done,
        Access::Yield => reply is Done,
        Access::Park => reply is Done,
    }
}

} // verus!
