//! Notifying and waiting, one access to the shared memory at a time.
//!
//! The word of a signal holds a notification, a wake token, and above them the number of threads
//! that wait. A thread that notifies issues the token with the notification, and with it a permit
//! for a thread to wake up; the woken thread takes the token back and looks for the notification.
use vstd::prelude::*;
use super::backoff::Backoff;

verus! {

/// A word without anything in it.
pub const EMPTY: usize = 0;

/// Bit that is set while a notification is stored.
pub const NOTIFIED: usize = 1;

/// Bit that is set while a wake token is out.
pub const WAKING: usize = 2;

/// What each waiting thread adds to the word.
pub const WAITING: usize = 4;

/// Whether the word holds a notification.
pub open spec fn notified(word: usize) -> bool {
    word % 2 == 1
}

/// Whether a wake token is out.
pub open spec fn waking(word: usize) -> bool {
    (word / 2) % 2 == 1
}

/// The number of threads that wait.
pub open spec fn waiting(word: usize) -> nat {
    (word / 4) as nat
}

/// Whether the bit of the word is set that a single waiting thread sets: the number of threads
/// that wait is odd.
pub open spec fn occupied(word: usize) -> bool {
    (word / 4) % 2 == 1
}

/// The word with a notification, and with a wake token where the word is occupied.
pub open spec fn notify_word(word: usize) -> usize {
    (word + (if notified(word) {
        0int
    } else {
        1
    }) + (if occupied(word) && !waking(word) {
        2int
    } else {
        0
    })) as usize
}

/// The word without its notification, and without the thread itself where it waits.
pub open spec fn consume_word(word: usize, is_waiting: bool) -> usize {
    (word - 1 - (if is_waiting {
        4int
    } else {
        0
    })) as usize
}

/// The bits of a word, by arithmetic.
pub proof fn lemma_bits(word: usize)
    ensures
        (word & NOTIFIED == 0) == !notified(word),
        (word & WAKING == 0) == !waking(word),
        (word & WAITING == 0) == !occupied(word),
        word | NOTIFIED == if notified(word) {
            word as int
        } else {
            word + 1
        },
        word | NOTIFIED | WAKING == (word | NOTIFIED) + if waking(word) {
            0int
        } else {
            2
        },
        notified(word) ==> word & !NOTIFIED == word - 1,
        waking(word | NOTIFIED) == waking(word),
        waking(word | NOTIFIED | WAKING),
        word % 2 + 2 * ((word / 2) % 2) + 4 * (word / 4) == word,
{
    assert((word & 1 == 0) == (word % 2 == 0)) by (bit_vector);
    assert((word & 2 == 0) == ((word / 2) % 2 == 0)) by (bit_vector);
    assert((word & 4 == 0) == ((word / 4) % 2 == 0)) by (bit_vector);
    assert(word % 2 == 1 ==> word | 1 == word) by (bit_vector);
    assert(word % 2 == 0 ==> word | 1 == word + 1) by (bit_vector);
    assert(((word | 1) / 2) % 2 == (word / 2) % 2) by (bit_vector);
    assert((word / 2) % 2 == 1 ==> word | 1 | 2 == word | 1) by (bit_vector);
    assert((word / 2) % 2 == 0 ==> word | 1 | 2 == (word | 1) + 2) by (bit_vector);
    assert(((word | 1 | 2) / 2) % 2 == 1) by (bit_vector);
    assert(word % 2 == 1 ==> word & !1 == word - 1) by (bit_vector);
}

/// One access to the memory that the threads of a signal share, or one pause of the thread.
#[derive(Clone, Copy, PartialEq, Eq, Debug)]
pub enum SignalAccess {
    /// Loads the word; answered by `Word`.
    Load,
    /// Replaces the word by `new` where it is `current`; answered by `Exchanged`, or by
    /// `Observed` with the word as it is. It may fail though the word is `current`.
    Exchange { current: usize, new: usize },
    /// Takes an amount off the word; answered by `Word` with the word as it was.
    FetchSub(usize),
    /// Adds a permit and wakes a thread that sleeps for one; answered by `Done`.
    Release,
    /// Sleeps for a permit and takes it; answered by `Permit` with whether the time was up first.
    Acquire,
    /// Spins once; answered by `Done`.
    Pause,
}

/// The answer to an access.
#[derive(Clone, Copy, PartialEq, Eq, Debug)]
pub enum SignalReply {
    Done,
    Word(usize),
    Exchanged,
    Observed(usize),
    Permit { timed_out: bool },
}

/// Whether `reply` is of the kind that answers `access`.
pub open spec fn answers(reply: SignalReply, access: SignalAccess) -> bool {
    match access {
        SignalAccess::Load => reply is Word,
        SignalAccess::Exchange { .. } => reply is Exchanged || reply is Observed,
        SignalAccess::FetchSub(_) => reply is Word,
        SignalAccess::Release => reply is Done,
        SignalAccess::Acquire => reply is Permit,
        SignalAccess::Pause => reply is Done,
    }
}

/// Where a thread stands that notifies.
#[derive(Clone, Copy, PartialEq, Eq, Debug)]
pub enum NotifyPc {
    /// About to load the word.
    Load,
    /// About to store a notification in this word.
    Store(usize),
    /// About to add a permit.
    Release,
    /// Done.
    Done,
}

/// A thread that notifies.
#[derive(Clone, Copy, PartialEq, Eq, Debug)]
pub struct Notify {
    pub pc: NotifyPc,
}

/// Where a thread that notifies goes from a word that it has seen.
pub open spec fn to_notify(word: usize) -> NotifyPc {
    if notified(word) {
        NotifyPc::Done
    } else {
        NotifyPc::Store(word)
    }
}

impl Notify {
    /// A thread stores a notification only where there is none.
    pub open spec fn wf(self) -> bool {
        self.pc matches NotifyPc::Store(word) ==> !notified(word)
    }

    /// What the thread does next, none where it is done.
    pub open spec fn spec_access(self) -> Option<SignalAccess> {
        match self.pc {
            NotifyPc::Load => Some(SignalAccess::Load),
            NotifyPc::Store(word) => Some(
                SignalAccess::Exchange { current: word, new: notify_word(word) },
            ),
            NotifyPc::Release => Some(SignalAccess::Release),
            NotifyPc::Done => None,
        }
    }

    /// Whether `reply` answers the access.
    pub open spec fn accepts(self, reply: SignalReply) -> bool {
        self.spec_access() is Some && answers(reply, self.spec_access()->0)
    }

    /// Where the thread stands after `reply`.
    pub open spec fn after(self, reply: SignalReply) -> Notify {
        let pc = match self.pc {
            NotifyPc::Load => to_notify(reply->Word_0),
            NotifyPc::Store(word) => if reply is Exchanged {
                if occupied(word) && !waking(word) {
                    NotifyPc::Release
                } else {
                    NotifyPc::Done
                }
            } else {
                to_notify(reply->Observed_0)
            },
            NotifyPc::Release => NotifyPc::Done,
            NotifyPc::Done => NotifyPc::Done,
        };
        Notify { pc }
    }

    /// A thread before its first access.
    pub fn new() -> (op: Notify)
        ensures
            op == (Notify { pc: NotifyPc::Load }),
            op.wf(),
    {
        Notify { pc: NotifyPc::Load }
    }

    /// What the thread does next, none where it is done.
    pub fn access(&self) -> (access: Option<SignalAccess>)
        requires
            self.wf(),
        ensures
            access == self.spec_access(),
    {
        match self.pc {
            NotifyPc::Load => Some(SignalAccess::Load),
            NotifyPc::Store(word) => {
                proof {
                    lemma_bits(word);
                }
                let mut new: usize = word | NOTIFIED;
                if word & WAITING != 0 {
                    new = new | WAKING;
                }
                Some(SignalAccess::Exchange { current: word, new })
            },
            NotifyPc::Release => Some(SignalAccess::Release),
            NotifyPc::Done => None,
        }
    }

    /// Goes on from the answer to the access.
    pub fn advance(&mut self, reply: SignalReply)
        requires
            old(self).wf(),
            old(self).accepts(reply),
        ensures
            *final(self) == old(self).after(reply),
            final(self).wf(),
    {
        self.pc = match (self.pc, reply) {
            (NotifyPc::Load, SignalReply::Word(word)) => look_to_notify(word),
            (NotifyPc::Store(_), SignalReply::Observed(word)) => look_to_notify(word),
            (NotifyPc::Store(word), _) => {
                proof {
                    lemma_bits(word);
                }
                if word & WAITING != 0 && word & WAKING == 0 {
                    NotifyPc::Release
                } else {
                    NotifyPc::Done
                }
            },
            (_, _) => NotifyPc::Done,
        };
    }
}

fn look_to_notify(word: usize) -> (pc: NotifyPc)
    ensures
        pc == to_notify(word),
{
    proof {
        lemma_bits(word);
    }
    if word & NOTIFIED == 0 {
        NotifyPc::Store(word)
    } else {
        NotifyPc::Done
    }
}

/// Where a thread stands that waits.
#[derive(Clone, Copy, PartialEq, Eq, Debug)]
pub enum WaitPc {
    /// About to load the word.
    Load,
    /// About to take the notification out of this word.
    Consume(usize),
    /// About to spin.
    Pause,
    /// About to add itself to this word.
    Enter(usize),
    /// About to sleep for a permit.
    Sleep,
    /// Ran out of time, about to take itself off the word.
    Leave,
    /// Was woken, about to take the wake token off the word.
    Unwake,
    /// Has taken a notification.
    Notified,
    /// Has run out of time.
    TimedOut,
}

/// A thread that waits.
#[derive(Clone, Copy, PartialEq, Eq, Debug)]
pub struct Wait {
    /// Whether the thread has added itself to the word.
    pub is_waiting: bool,
    pub backoff: Backoff,
    pub pc: WaitPc,
}

impl Wait {
    /// The words that the thread keeps allow what it is about to do.
    pub open spec fn wf(self) -> bool {
        match self.pc {
            WaitPc::Consume(word) => notified(word) && (self.is_waiting ==> waiting(word) > 0),
            WaitPc::Enter(word) => {
                !self.is_waiting && !notified(word) && word <= usize::MAX - WAITING
            },
            WaitPc::Sleep => self.is_waiting,
            WaitPc::Leave => self.is_waiting,
            WaitPc::Unwake => self.is_waiting,
            _ => true,
        }
    }

    /// The thread at another point.
    pub open spec fn at(self, pc: WaitPc) -> Wait {
        Wait { pc, ..self }
    }

    /// Where the thread goes from a word that it has seen: to the notification where there is one,
    /// to another spin where nobody waits and a spin is left, and else to sleep.
    pub open spec fn seen(self, word: usize) -> Wait {
        if notified(word) {
            self.at(WaitPc::Consume(word))
        } else if waiting(word) == 0 && self.backoff.can_spin() {
            Wait { backoff: self.backoff.spun(), pc: WaitPc::Pause, ..self }
        } else if self.is_waiting {
            self.at(WaitPc::Sleep)
        } else {
            self.at(WaitPc::Enter(word))
        }
    }

    /// Whether the thread can go on from a word: it counts the thread where it waits, and leaves
    /// room for it where it does not.
    pub open spec fn can_see(self, word: usize) -> bool {
        if self.is_waiting {
            waiting(word) > 0
        } else {
            word <= usize::MAX - WAITING
        }
    }

    /// What the thread does next, none where the wait is over.
    pub open spec fn spec_access(self) -> Option<SignalAccess> {
        match self.pc {
            WaitPc::Load => Some(SignalAccess::Load),
            WaitPc::Consume(word) => Some(
                SignalAccess::Exchange {
                    current: word,
                    new: consume_word(word, self.is_waiting),
                },
            ),
            WaitPc::Pause => Some(SignalAccess::Pause),
            WaitPc::Enter(word) => Some(
                SignalAccess::Exchange { current: word, new: (word + WAITING) as usize },
            ),
            WaitPc::Sleep => Some(SignalAccess::Acquire),
            WaitPc::Leave => Some(SignalAccess::FetchSub(WAITING)),
            WaitPc::Unwake => Some(SignalAccess::FetchSub(WAKING)),
            WaitPc::Notified => None,
            WaitPc::TimedOut => None,
        }
    }

    /// Whether the thread can go on from `reply`.
    pub open spec fn accepts(self, reply: SignalReply) -> bool {
        &&& self.spec_access() is Some
        &&& answers(reply, self.spec_access()->0)
        &&& self.pc is Load ==> self.can_see(reply->Word_0)
        &&& reply is Observed ==> self.can_see(reply->Observed_0)
        &&& self.pc is Unwake ==> waking(reply->Word_0) && waiting(reply->Word_0) > 0
    }

    /// Where the thread stands after `reply`.
    pub open spec fn after(self, reply: SignalReply) -> Wait {
        match self.pc {
            WaitPc::Load => self.seen(reply->Word_0),
            WaitPc::Consume(_) => if reply is Exchanged {
                self.at(WaitPc::Notified)
            } else {
                self.seen(reply->Observed_0)
            },
            WaitPc::Pause => self.at(WaitPc::Load),
            WaitPc::Enter(_) => if reply is Exchanged {
                Wait { is_waiting: true, pc: WaitPc::Sleep, ..self }
            } else {
                self.seen(reply->Observed_0)
            },
            WaitPc::Sleep => if reply->timed_out {
                self.at(WaitPc::Leave)
            } else {
                Wait {
                    backoff: Backoff { iteration: 0, ..self.backoff },
                    pc: WaitPc::Unwake,
                    ..self
                }
            },
            WaitPc::Leave => self.at(WaitPc::TimedOut),
            WaitPc::Unwake => self.seen((reply->Word_0 - WAKING) as usize),
            WaitPc::Notified => self,
            WaitPc::TimedOut => self,
        }
    }

    /// A thread before its first access.
    pub fn new(backoff: Backoff) -> (op: Wait)
        ensures
            op == (Wait { is_waiting: false, backoff, pc: WaitPc::Load }),
            op.wf(),
    {
        Wait { is_waiting: false, backoff, pc: WaitPc::Load }
    }

    /// What the thread does next, none where the wait is over.
    pub fn access(&self) -> (access: Option<SignalAccess>)
        requires
            self.wf(),
        ensures
            access == self.spec_access(),
    {
        match self.pc {
            WaitPc::Load => Some(SignalAccess::Load),
            WaitPc::Consume(word) => {
                proof {
                    lemma_bits(word);
                }
                let mut new: usize = word & !NOTIFIED;
                if self.is_waiting {
                    new = new - WAITING;
                }
                Some(SignalAccess::Exchange { current: word, new })
            },
            WaitPc::Pause => Some(SignalAccess::Pause),
            WaitPc::Enter(word) => Some(
                SignalAccess::Exchange { current: word, new: word + WAITING },
            ),
            WaitPc::Sleep => Some(SignalAccess::Acquire),
            WaitPc::Leave => Some(SignalAccess::FetchSub(WAITING)),
            WaitPc::Unwake => Some(SignalAccess::FetchSub(WAKING)),
            WaitPc::Notified => None,
            WaitPc::TimedOut => None,
        }
    }

    /// Goes on from the answer to the access.
    pub fn advance(&mut self, reply: SignalReply)
        requires
            old(self).wf(),
            old(self).accepts(reply),
        ensures
            *final(self) == old(self).after(reply),
            final(self).wf(),
    {
        match (self.pc, reply) {
            (WaitPc::Load, SignalReply::Word(word)) => {
                self.look(word);
            },
            (WaitPc::Consume(_), SignalReply::Exchanged) => {
                self.pc = WaitPc::Notified;
            },
            (WaitPc::Consume(_), SignalReply::Observed(word)) => {
                self.look(word);
            },
            (WaitPc::Pause, _) => {
                self.pc = WaitPc::Load;
            },
            (WaitPc::Enter(_), SignalReply::Exchanged) => {
                self.is_waiting = true;
                self.pc = WaitPc::Sleep;
            },
            (WaitPc::Enter(_), SignalReply::Observed(word)) => {
                self.look(word);
            },
            (WaitPc::Sleep, SignalReply::Permit { timed_out }) => {
                if timed_out {
                    self.pc = WaitPc::Leave;
                } else {
                    self.backoff.reset();
                    self.pc = WaitPc::Unwake;
                }
            },
            (WaitPc::Unwake, SignalReply::Word(word)) => {
                proof {
                    lemma_unwake(word);
                }
                self.look(word - WAKING);
            },
            (_, _) => {
                self.pc = WaitPc::TimedOut;
            },
        }
    }

    fn look(&mut self, word: usize)
        requires
            old(self).can_see(word),
        ensures
            *final(self) == old(self).seen(word),
            final(self).wf(),
    {
        proof {
            lemma_bits(word);
        }
        if word & NOTIFIED != 0 {
            self.pc = WaitPc::Consume(word);
            return;
        }
        if word < WAITING && self.backoff.spin() {
            self.pc = WaitPc::Pause;
            return;
        }
        if self.is_waiting {
            self.pc = WaitPc::Sleep;
        } else {
            self.pc = WaitPc::Enter(word);
        }
    }
}

/// Taking the wake token off a word leaves its other parts.
pub proof fn lemma_unwake(word: usize)
    requires
        waking(word),
    ensures
        word >= WAKING,
        !waking((word - WAKING) as usize),
        notified((word - WAKING) as usize) == notified(word),
        waiting((word - WAKING) as usize) == waiting(word),
{
}

} // verus!
