use floom::sync::backoff::{Backoff, Pause, Target, Vendor};
use floom::sync::mutex::{Lock, Mutex, SpinAccess, SpinAcquire, SpinPc, SpinReply};
use floom::sync::padded::CachePadded;
use floom::sync::signal::{Signal, Sleep};
use floom::sync::signal_machine::{
    Notify, NotifyPc, SignalAccess, SignalReply, Wait, WaitPc, NOTIFIED, WAITING, WAKING,
};

const AMD: Vendor = Vendor { ebx: 0x6874_7541, edx: 0x6974_6e65, ecx: 0x444d_4163 };
const INTEL: Vendor = Vendor { ebx: 0x756e_6547, edx: 0x4965_6e69, ecx: 0x6c65_746e };

#[test]
fn vendors_are_told_by_their_name() {
    let name = |v: Vendor| {
        let mut bytes = Vec::new();
        bytes.extend_from_slice(&v.ebx.to_le_bytes());
        bytes.extend_from_slice(&v.edx.to_le_bytes());
        bytes.extend_from_slice(&v.ecx.to_le_bytes());
        String::from_utf8(bytes).unwrap()
    };
    assert_eq!(name(AMD), "AuthenticAMD");
    assert_eq!(name(INTEL), "GenuineIntel");
    assert!(AMD.is_amd());
    assert!(!INTEL.is_amd());
    assert!(!(Vendor { ecx: 0, ..AMD }).is_amd());
}

#[test]
fn the_number_of_spins_depends_on_the_target() {
    assert_eq!(Backoff::get_max_spin(Target::WindowsX86(AMD)), 0);
    assert_eq!(Backoff::get_max_spin(Target::WindowsX86(INTEL)), 6);
    assert_eq!(Backoff::get_max_spin(Target::Posix), 40);
    assert_eq!(Backoff::get_max_spin(Target::Other), 6);
}

#[test]
fn a_backoff_runs_out_and_starts_over() {
    let mut backoff = Backoff::new(Target::Other);
    for _ in 0..6 {
        assert!(backoff.spin());
    }
    assert!(!backoff.spin());
    assert_eq!(backoff.iteration, 6);
    backoff.reset();
    assert_eq!(backoff.iteration, 0);
    assert!(backoff.spin());
}

#[test]
fn a_pause_yields_or_stays_on_the_processor() {
    let mut backoff = Backoff { iteration: 6, max_spin: 10 };
    assert_eq!(backoff.pause(true), Pause::Yield);
    assert_eq!(backoff.pause(false), Pause::Hint(100));
    assert!(backoff.spin());
    assert_eq!(backoff.pause(false), Pause::Hint(128));
    backoff.iteration = 30;
    assert_eq!(backoff.pause(false), Pause::Hint(1 << 30));
    backoff.iteration = 31;
    assert_eq!(backoff.pause(false), Pause::Hint(100));
}

#[test]
fn a_padded_value_is_the_value() {
    let padded = CachePadded::new(5u8);
    assert_eq!(*padded, 5);
}

#[test]
fn a_spinning_lock_is_taken_and_released() {
    let mut lock = Lock::new();
    assert!(!lock.is_locked);
    lock.acquire();
    assert!(lock.is_locked);
    lock.release();
    assert!(!lock.is_locked);
}

#[test]
fn a_thread_yields_while_the_lock_is_taken() {
    let mut op = SpinAcquire::new(true);
    assert_eq!(op.access(), Some(SpinAccess::Load));
    op.advance(SpinReply::Flag(true));
    assert_eq!(op.access(), Some(SpinAccess::Yield));
    op.advance(SpinReply::Done);
    op.advance(SpinReply::Flag(false));
    assert_eq!(op.access(), Some(SpinAccess::Exchange));
    op.advance(SpinReply::Observed(true));
    assert_eq!(op.access(), Some(SpinAccess::Yield));
    op.advance(SpinReply::Done);
    op.advance(SpinReply::Flag(false));
    op.advance(SpinReply::Exchanged);
    assert_eq!(op.pc, SpinPc::Acquired);
    assert_eq!(op.access(), None);
}

#[test]
fn a_thread_that_does_not_yield_spins_longer_each_time() {
    let mut op = SpinAcquire::new(false);
    for n in 1..150usize {
        op.advance(SpinReply::Flag(true));
        assert_eq!(op.access(), Some(SpinAccess::Hint(n.min(100))));
        op.advance(SpinReply::Done);
    }
    op.spin = usize::MAX;
    op.advance(SpinReply::Flag(true));
    assert_eq!(op.access(), Some(SpinAccess::Hint(0)));
}

#[test]
fn spinning_threads_exclude_each_other() {
    let mut seed = 7u64;
    let mut locked = false;
    let mut ops: Vec<Option<SpinAcquire>> = vec![None; 4];
    let mut sections = 0;
    for _ in 0..20_000 {
        seed = seed.wrapping_mul(6364136223846793005).wrapping_add(1442695040888963407);
        let i = (seed >> 33) as usize % 4;
        let failure = seed >> 60 == 0;
        match &mut ops[i] {
            None => ops[i] = Some(SpinAcquire::new(i % 2 == 0)),
            Some(op) => match op.access() {
                Some(SpinAccess::Load) => op.advance(SpinReply::Flag(locked)),
                Some(SpinAccess::Exchange) => {
                    if !locked && !failure {
                        locked = true;
                        op.advance(SpinReply::Exchanged);
                    } else {
                        op.advance(SpinReply::Observed(locked));
                    }
                }
                Some(_) => op.advance(SpinReply::Done),
                None => {
                    locked = false;
                    sections += 1;
                    ops[i] = None;
                }
            },
        }
        let mut holders = 0;
        for op in ops.iter() {
            if let Some(op) = op {
                if op.pc == SpinPc::Acquired {
                    holders += 1;
                }
            }
        }
        assert_eq!(holders, locked as usize);
    }
    assert!(sections > 100);
}

#[test]
fn a_mutex_gives_access_to_its_value() {
    let mut mutex = Mutex::new(vec![1, 2]);
    {
        let mut guard = mutex.lock();
        assert!(guard.mutex.lock.is_locked);
        assert_eq!(guard.deref().len(), 2);
        guard.deref_mut().push(3);
        guard.drop();
    }
    assert!(!mutex.lock.is_locked);
    assert_eq!(mutex.value, vec![1, 2, 3]);
}

#[test]
fn a_notification_is_stored_once_and_taken_once() {
    let mut signal = Signal::new();
    assert_eq!(signal.waiters, 0);
    signal.notify();
    assert_eq!(signal.waiters, NOTIFIED);
    signal.notify();
    assert_eq!((signal.waiters, signal.permits), (NOTIFIED, 0));
    assert!(!signal.wait(None, 0, Target::Other));
    assert_eq!(signal.waiters, 0);
    assert!(signal.wait(Some(10), 0, Target::Other));
    assert_eq!(signal.waiters, 0);
}

#[test]
fn a_notification_wakes_a_single_waiting_thread() {
    let mut signal = Signal { waiters: WAITING, permits: 0 };
    signal.notify();
    assert_eq!((signal.waiters, signal.permits), (WAITING + WAKING + NOTIFIED, 1));
    let mut signal = Signal { waiters: WAITING + WAKING, permits: 1 };
    signal.notify();
    assert_eq!((signal.waiters, signal.permits), (WAITING + WAKING + NOTIFIED, 1));
}

#[test]
fn a_notification_issues_no_permit_to_two_waiting_threads() {
    let mut signal = Signal { waiters: 2 * WAITING, permits: 0 };
    signal.notify();
    assert_eq!((signal.waiters, signal.permits), (2 * WAITING + NOTIFIED, 0));
}

#[test]
fn a_permit_that_was_left_is_taken_before_the_time_is_up() {
    let mut signal = Signal { waiters: WAKING, permits: 1 };
    assert!(signal.wait(Some(10), 20, Target::Posix));
    assert_eq!((signal.waiters, signal.permits), (0, 0));
}

#[test]
fn a_thread_sleeps_until_a_permit_comes_or_its_time_is_up() {
    let mut signal = Signal::new();
    assert_eq!(signal.semaphore_acquire(None, 5, false), Sleep::Forever);
    assert_eq!(signal.semaphore_acquire(Some(9), 5, false), Sleep::For(4));
    assert_eq!(signal.semaphore_acquire(Some(9), 9, false), Sleep::TimedOut);
    assert_eq!(signal.semaphore_acquire(Some(9), 5, true), Sleep::TimedOut);
    signal.semaphore_release();
    assert_eq!(signal.permits, 1);
    assert_eq!(signal.semaphore_acquire(Some(9), 9, true), Sleep::Acquired);
    assert_eq!(signal.permits, 0);
}

struct Memory {
    word: usize,
    permits: usize,
    stored: usize,
}

impl Memory {
    fn perform(&mut self, access: SignalAccess, failure: bool, time_up: bool) -> Option<SignalReply> {
        Some(match access {
            SignalAccess::Load => SignalReply::Word(self.word),
            SignalAccess::Exchange { current, new } => {
                if self.word == current && !failure {
                    self.word = new;
                    SignalReply::Exchanged
                } else {
                    SignalReply::Observed(self.word)
                }
            }
            SignalAccess::FetchSub(amount) => {
                let word = self.word;
                self.word -= amount;
                SignalReply::Word(word)
            }
            SignalAccess::Release => {
                self.permits += 1;
                SignalReply::Done
            }
            SignalAccess::Acquire => {
                if self.permits > 0 {
                    self.permits -= 1;
                    SignalReply::Permit { timed_out: false }
                } else if time_up {
                    SignalReply::Permit { timed_out: true }
                } else {
                    return None;
                }
            }
            SignalAccess::Pause => SignalReply::Done,
        })
    }
}

enum Thread {
    Idle,
    Notifying(Notify),
    Waiting(Wait),
}

fn run_signal(seed: u64, waiters: usize, time_up: bool) {
    let mut random = seed.wrapping_mul(2862933555777941757).wrapping_add(3037000493);
    let mut next = move |n: u64| {
        random = random.wrapping_mul(6364136223846793005).wrapping_add(1442695040888963407);
        (random >> 33) % n
    };
    let mut memory = Memory { word: 0, permits: 0, stored: 0 };
    let mut taken = 0;
    let mut threads: Vec<Thread> = (0..waiters + 1).map(|_| Thread::Idle).collect();
    for _ in 0..5_000 {
        let i = next(waiters as u64 + 1) as usize;
        let failure = next(4) == 0;
        let up = time_up && next(3) == 0;
        let done = match &mut threads[i] {
            Thread::Idle => true,
            Thread::Notifying(op) => match op.access() {
                Some(access) => {
                    let before = memory.word & NOTIFIED;
                    let reply = memory.perform(access, failure, false).unwrap();
                    op.advance(reply);
                    if memory.word & NOTIFIED != before {
                        memory.stored += 1;
                    }
                    false
                }
                None => true,
            },
            Thread::Waiting(op) => match op.access() {
                Some(access) => {
                    if let Some(reply) = memory.perform(access, failure, up) {
                        op.advance(reply);
                    }
                    if op.pc == WaitPc::Notified {
                        taken += 1;
                    }
                    false
                }
                None => true,
            },
        };
        if done {
            threads[i] = if i == 0 {
                Thread::Notifying(Notify::new())
            } else {
                Thread::Waiting(Wait::new(Backoff { iteration: 0, max_spin: 2 }))
            };
        }
        let mut counted = 0;
        for thread in threads.iter() {
            if let Thread::Waiting(op) = thread {
                if op.is_waiting && op.pc != WaitPc::Notified && op.pc != WaitPc::TimedOut {
                    counted += 1;
                }
            }
        }
        assert_eq!(memory.word / WAITING, counted);
        assert!(memory.permits <= 1);
        assert_eq!(memory.stored, taken + (memory.word & NOTIFIED));
    }
    assert!(taken > 50, "notifications stopped coming through");
}

#[test]
fn every_notification_is_taken_once_in_any_order() {
    for seed in 0..30 {
        run_signal(seed, 1, false);
        run_signal(seed, 1, true);
        run_signal(seed, 3, true);
    }
}

#[test]
fn a_wait_goes_through_its_accesses() {
    let mut op = Wait::new(Backoff { iteration: 0, max_spin: 1 });
    assert_eq!(op.access(), Some(SignalAccess::Load));
    op.advance(SignalReply::Word(0));
    assert_eq!(op.access(), Some(SignalAccess::Pause));
    op.advance(SignalReply::Done);
    op.advance(SignalReply::Word(0));
    assert_eq!(op.access(), Some(SignalAccess::Exchange { current: 0, new: WAITING }));
    op.advance(SignalReply::Exchanged);
    assert_eq!(op.access(), Some(SignalAccess::Acquire));
    op.advance(SignalReply::Permit { timed_out: false });
    assert_eq!(op.access(), Some(SignalAccess::FetchSub(WAKING)));
    op.advance(SignalReply::Word(NOTIFIED + WAKING + WAITING));
    assert_eq!(op.access(), Some(SignalAccess::Exchange { current: NOTIFIED + WAITING, new: 0 }));
    op.advance(SignalReply::Exchanged);
    assert_eq!(op.pc, WaitPc::Notified);
}

#[test]
fn a_wait_that_runs_out_of_time_leaves() {
    let mut op = Wait::new(Backoff { iteration: 0, max_spin: 0 });
    op.advance(SignalReply::Word(0));
    op.advance(SignalReply::Exchanged);
    op.advance(SignalReply::Permit { timed_out: true });
    assert_eq!(op.access(), Some(SignalAccess::FetchSub(WAITING)));
    op.advance(SignalReply::Word(WAITING));
    assert_eq!(op.pc, WaitPc::TimedOut);
    assert_eq!(op.access(), None);
}

#[test]
fn a_thread_that_finds_a_notification_does_not_store_another() {
    let mut op = Notify::new();
    op.advance(SignalReply::Word(NOTIFIED));
    assert_eq!(op.pc, NotifyPc::Done);
    let mut op = Notify::new();
    op.advance(SignalReply::Word(WAITING));
    let new = NOTIFIED + WAKING + WAITING;
    assert_eq!(op.access(), Some(SignalAccess::Exchange { current: WAITING, new }));
    op.advance(SignalReply::Observed(NOTIFIED + WAITING));
    assert_eq!(op.pc, NotifyPc::Done);
}

#[test]
fn a_thread_spins_only_where_nobody_waits() {
    let backoff = Backoff { iteration: 0, max_spin: 5 };
    for (word, spins) in [
        (0, true),
        (WAKING, true),
        (WAITING, false),
        (2 * WAITING, false),
        (2 * WAITING + WAKING, false),
        (3 * WAITING, false),
    ] {
        let mut op = Wait::new(backoff);
        op.advance(SignalReply::Word(word));
        assert_eq!(op.pc == WaitPc::Pause, spins);
        assert_eq!(op.pc == WaitPc::Enter(word), !spins);
    }
}

#[test]
fn a_wake_token_without_its_permit_stays_out() {
    let mut signal = Signal { waiters: WAKING + WAITING, permits: 0 };
    assert!(signal.wait(Some(10), 0, Target::Other));
    assert_eq!((signal.waiters, signal.permits), (WAKING + WAITING, 0));
    signal.notify();
    assert!(!signal.wait(None, 0, Target::Other));
    assert_eq!((signal.waiters, signal.permits), (WAKING + WAITING, 0));
}

#[test]
fn the_next_holder_of_a_mutex_sees_what_was_left() {
    let mut mutex = Mutex::new(1);
    let mut guard = mutex.lock();
    *guard.deref_mut() = 5;
    guard.drop();
    let guard = mutex.lock();
    assert_eq!(*guard.deref(), 5);
    guard.drop();
}

#[test]
fn no_more_notifications_are_taken_than_were_given() {
    let mut signal = Signal::new();
    let mut taken = 0;
    for given in 1..6 {
        signal.notify();
        signal.notify();
        while !signal.wait(Some(1), 1, Target::Other) {
            taken += 1;
        }
        assert_eq!(taken, given);
    }
}
