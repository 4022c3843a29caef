use std::sync::atomic::{AtomicUsize, Ordering};
use std::sync::Arc;
use std::task::{Wake, Waker};

use floom::waker::atomic::{keep_waker, AtomicWaker, Poll};
use floom::waker::machine::{
    PollPc, WakePc, WakerAccess, WakerPoll, WakerReply, WakerWake, WAKER_EMPTY, WAKER_NOTIFIED,
    WAKER_UPDATING, WAKER_WAITING,
};

struct Counter(AtomicUsize);

impl Wake for Counter {
    fn wake(self: Arc<Self>) {
        self.0.fetch_add(1, Ordering::SeqCst);
    }
}

fn counter() -> (Arc<Counter>, Waker) {
    let counter = Arc::new(Counter(AtomicUsize::new(0)));
    (counter.clone(), Waker::from(counter))
}

#[test]
fn a_new_slot_is_empty() {
    let slot = AtomicWaker::new();
    assert_eq!(slot.state, WAKER_EMPTY);
    assert!(slot.waker.is_none());
}

#[test]
fn a_registered_task_is_woken_by_its_waker() {
    let (count, waker) = counter();
    let mut slot = AtomicWaker::new();
    slot.prepare(waker);
    assert_eq!(slot.state, WAKER_WAITING);
    slot.wake().unwrap().wake();
    assert_eq!(count.0.load(Ordering::SeqCst), 1);
    assert_eq!(slot.state, WAKER_NOTIFIED);
    assert!(slot.waker.is_none());
    let (_, waker) = counter();
    assert_eq!(slot.poll(waker), Poll::Ready(()));
}

#[test]
fn polling_puts_the_new_waker_in_place() {
    let (first, waker) = counter();
    let mut slot = AtomicWaker::new();
    slot.prepare(waker);
    let (second, waker) = counter();
    assert_eq!(slot.poll(waker), Poll::Pending);
    assert_eq!(slot.state, WAKER_WAITING);
    slot.wake().unwrap().wake();
    assert_eq!(first.0.load(Ordering::SeqCst), 0);
    assert_eq!(second.0.load(Ordering::SeqCst), 1);
}

#[test]
fn polling_with_a_waker_of_the_same_task_keeps_the_stored_one() {
    let (count, waker) = counter();
    let mut slot = AtomicWaker::new();
    slot.prepare(waker.clone());
    assert_eq!(Arc::strong_count(&count), 3);
    assert_eq!(slot.poll(waker.clone()), Poll::Pending);
    // The stored waker, the local one, and the count itself.
    assert_eq!(Arc::strong_count(&count), 3);
    assert!(slot.waker.as_ref().unwrap().will_wake(&waker));
}

#[test]
fn the_kept_waker_is_the_stored_one_only_for_the_same_task() {
    let (_, stored) = counter();
    let (_, new) = counter();
    assert!(keep_waker(stored.clone(), new.clone(), true).will_wake(&stored));
    assert!(keep_waker(stored.clone(), new.clone(), false).will_wake(&new));
}

#[test]
fn a_task_that_registers_anew_keeps_its_waker() {
    let (_, waker) = counter();
    let mut slot = AtomicWaker { state: WAKER_UPDATING, waker: Some(waker) };
    assert!(slot.wake().is_none());
    assert_eq!(slot.state, WAKER_NOTIFIED);
    assert!(slot.waker.is_some());
}

/// The state and the stored waker, by the number of the poll that brought it.
struct Memory {
    state: u8,
    stored: Option<usize>,
    handed: Option<usize>,
}

impl Memory {
    fn perform(&mut self, access: WakerAccess, poll: usize, failure: bool) -> WakerReply {
        match access {
            WakerAccess::Load => WakerReply::State(self.state),
            WakerAccess::Exchange { current, new, weak } => {
                if self.state == current && !(weak && failure) {
                    self.state = new;
                    WakerReply::Exchanged
                } else {
                    WakerReply::Observed(self.state)
                }
            }
            WakerAccess::Store => {
                assert!(self.stored.is_some());
                self.stored = Some(poll);
                WakerReply::Done
            }
            WakerAccess::Swap => {
                let state = self.state;
                self.state = WAKER_NOTIFIED;
                WakerReply::State(state)
            }
            WakerAccess::Take => {
                assert!(self.stored.is_some());
                self.handed = self.stored.take();
                WakerReply::Done
            }
        }
    }
}

#[test]
fn no_wakeup_is_lost_in_any_order() {
    // The bits of `order` say who makes the next access, those of `failures` which weak exchanges
    // fail.
    for order in 0u32..4096 {
        for failures in 0u32..8 {
            let mut memory = Memory { state: WAKER_WAITING, stored: Some(0), handed: None };
            let mut poll = WakerPoll::new();
            let mut polls = 1;
            let mut ready = false;
            let mut wake = WakerWake::new();
            for step in 0..12 {
                let both = poll.pc == PollPc::Store && wake.pc == WakePc::Take;
                assert!(!both, "both use the stored waker");
                if order >> step & 1 == 0 {
                    match poll.access() {
                        Some(access) => {
                            let failure = failures >> (step % 3) & 1 == 1;
                            poll.advance(memory.perform(access, polls, failure));
                        }
                        None => {
                            if poll.pc == PollPc::Ready {
                                ready = true;
                            } else {
                                polls += 1;
                                poll = WakerPoll::new();
                            }
                        }
                    }
                } else if let Some(access) = wake.access() {
                    wake.advance(memory.perform(access, 0, false));
                }
            }
            while let Some(access) = wake.access() {
                wake.advance(memory.perform(access, 0, false));
            }
            while let Some(access) = poll.access() {
                poll.advance(memory.perform(access, polls, false));
            }
            if poll.pc == PollPc::Pending {
                assert_eq!(memory.handed, Some(polls));
            } else {
                ready = true;
            }
            assert!(ready || memory.handed.is_some());
            assert_eq!(memory.state, WAKER_NOTIFIED);
        }
    }
}

#[test]
fn a_poll_goes_through_its_accesses() {
    let mut op = WakerPoll::new();
    assert_eq!(op.access(), Some(WakerAccess::Load));
    op.advance(WakerReply::State(WAKER_WAITING));
    assert_eq!(
        op.access(),
        Some(WakerAccess::Exchange { current: WAKER_WAITING, new: WAKER_UPDATING, weak: true })
    );
    op.advance(WakerReply::Exchanged);
    assert_eq!(op.access(), Some(WakerAccess::Store));
    op.advance(WakerReply::Done);
    op.advance(WakerReply::Observed(WAKER_NOTIFIED));
    assert_eq!(op.pc, PollPc::Ready);
}
