//! The word of a lock.
//!
//! The low byte says whether the lock is held, the next bit whether a thread is being woken, and
//! the remaining bits are the address of the newest waiter, whose alignment keeps the low bits
//! clear.
use vstd::prelude::*;

verus! {

/// Value of the low byte while nobody holds the lock.
pub const UNLOCKED: u8 = 0;

/// Value of the low byte while a thread holds the lock.
pub const LOCKED: u8 = 1;

/// Bit that is set while a waiter is being woken.
pub const WAKING: usize = 256;

/// Mask of the bits that hold the address of the newest waiter.
pub const WAITING: usize = !511;

/// Alignment of a waiter's address.
pub const ALIGN: usize = 512;

/// Whether `addr` can stand for a waiter in the word.
pub open spec fn is_address(addr: usize) -> bool {
    addr != 0 && addr % ALIGN == 0
}

/// The low byte of the word.
pub open spec fn byte(state: usize) -> u8 {
    (state % 256) as u8
}

/// Whether the word says that the lock is held.
pub open spec fn locked(state: usize) -> bool {
    state % 2 == 1
}

/// Whether the word says that a waiter is being woken.
pub open spec fn waking(state: usize) -> bool {
    (state / WAKING) % 2 == 1
}

/// The address of the newest waiter, 0 where nobody waits.
pub open spec fn head(state: usize) -> usize {
    (state - state % ALIGN) as usize
}

/// A link to the waiter at `addr`, none where `addr` is 0.
pub open spec fn link(addr: usize) -> Option<usize> {
    if addr == 0 {
        None
    } else {
        Some(addr)
    }
}

/// Whether somebody waits, nobody is being woken, and nobody holds the lock.
pub open spec fn wake_needed(state: usize) -> bool {
    head(state) != 0 && !waking(state) && !locked(state)
}

/// The word after the low byte has been set to `LOCKED`.
pub open spec fn with_byte_locked(state: usize) -> usize {
    (state - state % 256 + 1) as usize
}

/// The word after the low byte has been set to `UNLOCKED`.
pub open spec fn with_byte_unlocked(state: usize) -> usize {
    (state - state % 256) as usize
}

/// The bits of the word, by arithmetic.
pub proof fn lemma_bits(state: usize)
    ensures
        state & (LOCKED as usize) == state % 2,
        (state & WAKING != 0) == waking(state),
        state & WAITING == head(state),
        state & !WAITING == state % ALIGN,
        is_address(head(state)) || head(state) == 0,
        state & (WAKING | (LOCKED as usize)) == 0 <==> !waking(state) && !locked(state),
        !waking(state) ==> state | WAKING == state + WAKING,
        waking(state) ==> state & !WAKING == state - WAKING,
        waking(state) ==> state >= WAKING,
{
    assert(state & 1 == state % 2) by (bit_vector);
    assert((state & 256 != 0) == ((state / 256) % 2 == 1)) by (bit_vector);
    assert(state & !511 == state - state % 512) by (bit_vector);
    assert(state & !(!511) == state % 512) by (bit_vector);
    assert(state & (256usize | 1usize) == 0 <==> (state / 256) % 2 == 0 && state % 2 == 0) by (bit_vector);
    assert((state / 256) % 2 == 0 ==> state | 256 == state + 256) by (bit_vector);
    assert((state / 256) % 2 == 1 ==> state & !256 == state - 256) by (bit_vector);
    assert((state - state % 512) % 512 == 0) by (bit_vector);
}

/// Writing the low byte leaves the other parts of the word.
pub proof fn lemma_byte(state: usize)
    ensures
        locked(with_byte_locked(state)),
        with_byte_locked(state) % 256 == 1,
        waking(with_byte_locked(state)) == waking(state),
        head(with_byte_locked(state)) == head(state),
        !locked(with_byte_unlocked(state)),
        with_byte_unlocked(state) % 256 == 0,
        waking(with_byte_unlocked(state)) == waking(state),
        head(with_byte_unlocked(state)) == head(state),
{
    let high: usize = (state - state % 256) as usize;
    assert(high % 256 == 0 && high / 256 == state / 256);
    assert((high + 1) % 256 == 1 && (high + 1) / 256 == state / 256);
    lemma_split(state);
    lemma_split(high);
    lemma_split((high + 1) as usize);
}

/// The bits below a waiter's address are the waking bit and the low byte.
pub proof fn lemma_split(state: usize)
    ensures
        state % 512 == (if waking(state) { 256int } else { 0int }) + state % 256,
        head(state) % 512 == 0,
{
    assert(state % 512 == ((state / 256) % 2) * 256 + state % 256) by (bit_vector);
    assert((state - state % 512) % 512 == 0) by (bit_vector);
}

/// The parts of a word that is put together from an address and the bits below it.
pub proof fn lemma_parts(new: usize, addr: usize, low: int)
    requires
        addr % 512 == 0,
        0 <= low < 512,
        new == addr + low,
    ensures
        head(new) == addr,
        new % 512 == low,
        new % 256 == low % 256,
        locked(new) == (low % 2 == 1),
        waking(new) == (low >= 256),
{
    lemma_split(new);
}

/// Whether the lock is held.
pub fn is_locked(state: usize) -> (yes: bool)
    ensures
        yes == locked(state),
{
    proof {
        lemma_bits(state);
    }
    state & (LOCKED as usize) != 0
}

/// Whether a waiter is being woken.
pub fn is_waking(state: usize) -> (yes: bool)
    ensures
        yes == waking(state),
{
    proof {
        lemma_bits(state);
    }
    state & WAKING != 0
}

/// Address of the newest waiter, if there is one.
pub fn newest(state: usize) -> (addr: Option<usize>)
    ensures
        addr == link(head(state)),
{
    proof {
        lemma_bits(state);
    }
    let addr: usize = state & WAITING;
    if addr == 0 {
        None
    } else {
        Some(addr)
    }
}

/// Whether a thread that has just unlocked has a waiter to wake: there is one, nobody else is
/// waking one, and nobody has taken the lock meanwhile.
pub fn needs_wake(state: usize) -> (yes: bool)
    ensures
        yes == wake_needed(state),
{
    proof {
        lemma_bits(state);
    }
    (state & WAITING != 0) && (state & (WAKING | (LOCKED as usize)) == 0)
}

} // verus!
