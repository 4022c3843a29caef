use std::collections::HashMap;

use floom::lock::access::{Access, Reply};
use floom::lock::acquire::{Acquire, AcquirePc};
use floom::lock::memory::LockWaiter;
use floom::lock::release::{Release, ReleasePc};
use floom::lock::value::Lock;
use floom::lock::word::{is_locked, is_waking, needs_wake, newest, WAKING};

/// The memory that the threads of a lock share.
struct Memory {
    word: usize,
    nodes: HashMap<usize, LockWaiter>,
    notified: Vec<usize>,
}

impl Memory {
    fn new(threads: usize) -> Self {
        let mut nodes = HashMap::new();
        for i in 0..threads {
            nodes.insert((i + 1) * 512, LockWaiter::new());
        }
        Memory { word: 0, nodes, notified: Vec::new() }
    }

    fn node(&mut self, addr: usize) -> &mut LockWaiter {
        self.nodes.get_mut(&addr).unwrap()
    }

    fn perform(&mut self, me: usize, access: Access, weak_failure: bool) -> Reply {
        match access {
            Access::SwapByte => {
                let byte = (self.word % 256) as u8;
                self.word = self.word - self.word % 256 + 1;
                Reply::Byte(byte)
            }
            Access::StoreByte => {
                self.word -= self.word % 256;
                Reply::Done
            }
            Access::Load => Reply::Word(self.word),
            Access::Exchange { current, new } => {
                if self.word == current && !weak_failure {
                    self.word = new;
                    Reply::Exchanged
                } else {
                    Reply::Observed(self.word)
                }
            }
            Access::FetchSub => {
                let word = self.word;
                self.word -= WAKING;
                Reply::Word(word)
            }
            Access::Link { next, tail } => {
                self.node(me).next = next;
                self.node(me).tail = tail;
                Reply::Done
            }
            Access::LoadNotified => Reply::Flag(self.node(me).notified),
            Access::Rearm => {
                self.node(me).notified = false;
                self.node(me).prev = None;
                Reply::Done
            }
            Access::GetNext(addr) => Reply::Address(self.node(addr).next),
            Access::GetPrev(addr) => Reply::Address(self.node(addr).prev),
            Access::GetTail(addr) => Reply::Address(self.node(addr).tail),
            Access::SetPrev(addr, prev) => {
                self.node(addr).prev = Some(prev);
                Reply::Done
            }
            Access::SetTail(addr, tail) => {
                self.node(addr).tail = Some(tail);
                Reply::Done
            }
            Access::Notify(addr) => {
                self.node(addr).notified = true;
                self.notified.push(addr);
                Reply::Done
            }
            Access::SpinHint(_) | Access::Yield | Access::Park => Reply::Done,
        }
    }

    fn acquire_step(&mut self, op: &mut Acquire) {
        let access = op.access().unwrap();
        let reply = self.perform(op.me, access, false);
        op.advance(reply);
    }

    fn release_step(&mut self, op: &mut Release) {
        let access = op.access().unwrap();
        let reply = self.perform(0, access, false);
        op.advance(reply);
    }

    fn acquire_until_parked(&mut self, op: &mut Acquire) {
        while op.pc != AcquirePc::Park && op.pc != AcquirePc::Acquired {
            self.acquire_step(op);
        }
    }

    fn release_fully(&mut self) {
        let mut op = Release::new();
        while op.pc != ReleasePc::Done {
            self.release_step(&mut op);
        }
    }
}

enum Thread {
    Idle(usize),
    Acquiring(usize, Acquire),
    Releasing(usize, Release),
}

struct Random(u64);

impl Random {
    fn below(&mut self, n: u64) -> u64 {
        self.0 = self.0.wrapping_mul(6364136223846793005).wrapping_add(1442695040888963407);
        (self.0 >> 33) % n
    }
}

fn touched(access: Access) -> Option<usize> {
    match access {
        Access::GetNext(addr)
        | Access::GetPrev(addr)
        | Access::GetTail(addr)
        | Access::SetPrev(addr, _)
        | Access::SetTail(addr, _)
        | Access::Notify(addr) => Some(addr),
        _ => None,
    }
}

fn run_threads(seed: u64, threads: usize, rounds: usize) {
    let mut random = Random(seed);
    let mut memory = Memory::new(threads);
    let mut state: Vec<Thread> = (0..threads).map(|_| Thread::Idle(rounds)).collect();
    let mut joined: Vec<usize> = Vec::new();
    let mut steps = 0u64;
    loop {
        let mut busy = false;
        for thread in state.iter() {
            if !matches!(thread, Thread::Idle(0)) {
                busy = true;
            }
        }
        if !busy {
            break;
        }
        steps += 1;
        assert!(steps < 2_000_000, "a thread was never woken");
        let i = random.below(threads as u64) as usize;
        let me = (i + 1) * 512;
        let weak_failure = random.below(4) == 0;
        if let Thread::Releasing(_, op) = &state[i] {
            if let Some(addr) = op.access().and_then(touched) {
                assert!(!memory.node(addr).notified, "a thread that was notified is left alone");
                assert!(
                    matches!(
                        &state[addr / 512 - 1],
                        Thread::Acquiring(_, op)
                            if op.pc == AcquirePc::Check || op.pc == AcquirePc::Park
                    ),
                    "a thread that does not sleep is left alone"
                );
            }
        }
        let next = match &mut state[i] {
            Thread::Idle(0) => None,
            Thread::Idle(left) => Some(Thread::Acquiring(*left, Acquire::new(me))),
            Thread::Acquiring(left, op) => match op.access() {
                Some(access) => {
                    let publishes = matches!(op.pc, AcquirePc::Publish(_));
                    let reply = memory.perform(me, access, weak_failure);
                    op.advance(reply);
                    if publishes && op.pc == AcquirePc::Check {
                        joined.push(me);
                    }
                    None
                }
                None => Some(Thread::Releasing(*left, Release::new())),
            },
            Thread::Releasing(left, op) => match op.access() {
                Some(access) => {
                    let reply = memory.perform(me, access, weak_failure);
                    op.advance(reply);
                    None
                }
                None => Some(Thread::Idle(*left - 1)),
            },
        };
        if let Some(next) = next {
            state[i] = next;
        }
        let mut holders = 0;
        for thread in state.iter() {
            match thread {
                Thread::Acquiring(_, op) if op.pc == AcquirePc::Acquired => holders += 1,
                Thread::Releasing(_, op) if op.pc == ReleasePc::Unlock => holders += 1,
                _ => {}
            }
        }
        assert!(holders <= 1, "two threads hold the lock");
        assert_eq!(holders == 1, is_locked(memory.word));
    }
    assert_eq!(memory.word, 0);
    assert_eq!(memory.notified, joined, "threads are woken in the order in which they joined");
}

#[test]
fn threads_exclude_each_other_and_touch_only_those_who_sleep() {
    for seed in 0..60 {
        run_threads(seed, 2 + (seed as usize % 5), 8);
    }
}

#[test]
fn one_thread_takes_and_leaves_a_free_lock() {
    let mut memory = Memory::new(1);
    let mut op = Acquire::new(512);
    memory.acquire_step(&mut op);
    assert_eq!(op.pc, AcquirePc::Acquired);
    assert_eq!(op.access(), None);
    assert_eq!(memory.word, 1);
    memory.release_fully();
    assert_eq!(memory.word, 0);
}

#[test]
fn a_thread_spins_before_it_waits() {
    let mut memory = Memory::new(2);
    memory.word = 1;
    let mut op = Acquire::new(512);
    memory.acquire_step(&mut op);
    let mut pauses = Vec::new();
    loop {
        memory.acquire_step(&mut op);
        match op.access() {
            Some(Access::SpinHint(n)) => pauses.push(n),
            Some(Access::Yield) => pauses.push(0),
            Some(Access::Link { next, tail }) => {
                assert_eq!(next, None);
                assert_eq!(tail, Some(512));
                break;
            }
            _ => {}
        }
    }
    assert_eq!(pauses, vec![2, 4, 8, 0, 0, 0, 0, 0, 0, 0]);
    memory.acquire_step(&mut op);
    assert_eq!(op.access(), Some(Access::Exchange { current: 1, new: 513 }));
}

#[test]
fn a_thread_that_finds_others_waiting_does_not_spin() {
    let mut op = Acquire::new(1024);
    op.advance(Reply::Byte(1));
    op.advance(Reply::Word(512 + 1));
    assert_eq!(op.access(), Some(Access::Link { next: Some(512), tail: None }));
}

#[test]
fn the_oldest_waiter_is_woken_first() {
    let mut memory = Memory::new(4);
    let mut holder = Acquire::new(4 * 512);
    memory.acquire_step(&mut holder);
    let mut ops = Vec::new();
    for i in 0..3 {
        let mut op = Acquire::new((i + 1) * 512);
        memory.acquire_until_parked(&mut op);
        assert_eq!(op.pc, AcquirePc::Park);
        ops.push(op);
    }
    assert_eq!(newest(memory.word), Some(3 * 512));
    memory.release_fully();
    assert_eq!(memory.notified, vec![512]);
    assert!(is_waking(memory.word));
    // The links to newer waiters have been laid, and the newest one knows the oldest.
    assert_eq!(memory.node(1024).prev, Some(3 * 512));
    assert_eq!(memory.node(3 * 512).tail, Some(1024));
    // The woken thread takes the waking bit off and the lock.
    let op = &mut ops[0];
    while op.pc != AcquirePc::Acquired {
        memory.acquire_step(op);
    }
    assert!(!is_waking(memory.word));
    memory.release_fully();
    assert_eq!(memory.notified, vec![512, 1024]);
}

#[test]
fn waking_is_left_to_the_thread_that_took_the_lock_meanwhile() {
    let mut memory = Memory::new(2);
    let mut holder = Acquire::new(1024);
    memory.acquire_step(&mut holder);
    let mut waiter = Acquire::new(512);
    memory.acquire_until_parked(&mut waiter);
    let mut op = Release::new();
    while !matches!(op.pc, ReleasePc::FindTail { .. }) {
        memory.release_step(&mut op);
    }
    // Another thread takes the lock before the waiter is taken off.
    memory.word += 1;
    while !matches!(op.pc, ReleasePc::Clear { .. }) {
        memory.release_step(&mut op);
    }
    memory.release_step(&mut op);
    assert!(matches!(op.pc, ReleasePc::FindTail { .. }));
    memory.release_step(&mut op);
    assert!(matches!(op.pc, ReleasePc::Abandon { .. }));
    memory.release_step(&mut op);
    assert_eq!(op.pc, ReleasePc::Done);
    assert_eq!(memory.word, 512 + 1);
    assert!(memory.notified.is_empty());
}

#[test]
fn the_word_is_made_of_three_parts() {
    let word = 5 * 512 + 256 + 1;
    assert!(is_locked(word));
    assert!(is_waking(word));
    assert_eq!(newest(word), Some(5 * 512));
    assert!(!needs_wake(word));
    assert!(!needs_wake(5 * 512 + 256));
    assert!(!needs_wake(5 * 512 + 1));
    assert!(needs_wake(5 * 512));
    assert!(!needs_wake(0));
    assert_eq!(newest(257), None);
}

#[test]
fn a_lock_guards_its_value() {
    let mut lock = Lock::new(3u32);
    assert_eq!(lock.state, 0);
    let (old, released) = lock.with(|value| {
        let old = *value;
        *value = 7;
        old
    });
    assert_eq!(old, 3);
    assert_eq!(released.pc, ReleasePc::Done);
    assert_eq!(lock.value, 7);
    // The next one sees what was left.
    assert_eq!(lock.with(|value| *value).0, 7);
    assert_eq!(lock.state, 0);
    assert_eq!(lock.with_mut(|value| *value + 1), 8);
}

#[test]
fn a_free_lock_with_waiters_is_used_and_one_is_to_be_woken() {
    let mut lock = Lock { state: 1024, value: 1u8 };
    let (_, released) = lock.with(|value| *value += 1);
    assert_eq!((lock.state, lock.value), (1024, 2));
    assert_eq!(released.pc, ReleasePc::Reload);
    let mut lock = Lock { state: 1024 + WAKING, value: 1u8 };
    let (_, released) = lock.with(|value| *value += 1);
    assert_eq!((lock.state, lock.value), (1024 + WAKING, 2));
    assert_eq!(released.pc, ReleasePc::Done);
}

#[test]
fn a_lock_is_taken_once() {
    let mut lock = Lock::new(());
    assert_eq!(lock.byte_state(), 0);
    assert!(lock.try_acquire());
    assert!(!lock.try_acquire());
    assert_eq!(lock.byte_state(), 1);
    assert_eq!(lock.acquire(512).pc, AcquirePc::Load);
    assert_eq!(lock.release().pc, ReleasePc::Done);
    assert_eq!(lock.acquire(512).pc, AcquirePc::Acquired);
    lock.state += 1024;
    assert_eq!(lock.release().pc, ReleasePc::Reload);
    assert_eq!(lock.state, 1024);
}
