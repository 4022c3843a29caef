//! Spinning before a thread blocks.
use vstd::prelude::*;

verus! {

/// Registers in which an x86 processor names its vendor.
#[derive(Clone, Copy, PartialEq, Eq, Debug)]
pub struct Vendor {
    pub ebx: u32,
    pub ecx: u32,
    pub edx: u32,
}

/// What a thread runs on.
#[derive(Clone, Copy, PartialEq, Eq, Debug)]
pub enum Target {
    /// Windows on an x86 processor.
    WindowsX86(Vendor),
    Posix,
    Other,
}

/// The four characters in a register, lowest byte first.
pub open spec fn register_text(register: u32) -> Seq<char> {
    seq![
        (register % 256) as char,
        ((register / 256) % 256) as char,
        ((register / 65536) % 256) as char,
        (register / 16777216) as char,
    ]
}

impl Vendor {
    /// The vendor's name.
    pub open spec fn text(self) -> Seq<char> {
        register_text(self.ebx) + register_text(self.edx) + register_text(self.ecx)
    }

    /// Whether the vendor is AMD.
    pub fn is_amd(&self) -> (amd: bool)
        ensures
            amd == (self.text() == "AuthenticAMD"@),
    {
        let amd: bool = self.ebx == 0x6874_7541 && self.edx == 0x6974_6e65 && self.ecx
            == 0x444d_4163;
        proof {
            reveal_strlit("AuthenticAMD");
            let name = "AuthenticAMD"@;
            let text = self.text();
            if amd {
                assert(text =~= name);
            } else if text == name {
                lemma_register(self.ebx);
                lemma_register(self.edx);
                lemma_register(self.ecx);
                assert forall|i: int| 0 <= i < 4 implies {
                    &&& text[i] == register_text(self.ebx)[i]
                    &&& text[i + 4] == register_text(self.edx)[i]
                    &&& text[i + 8] == #[trigger] register_text(self.ecx)[i]
                } by {}
                assert(register_text(self.ebx)[0] == 'A' && register_text(self.ecx)[0] == 'c');
                assert(register_text(self.ebx)[1] == 'u' && register_text(self.ecx)[1] == 'A');
                assert(register_text(self.ebx)[2] == 't' && register_text(self.ecx)[2] == 'M');
                assert(register_text(self.ebx)[3] == 'h' && register_text(self.ecx)[3] == 'D');
                assert(register_text(self.edx)[0] == 'e' && register_text(self.edx)[1] == 'n');
                assert(register_text(self.edx)[2] == 't' && register_text(self.edx)[3] == 'i');
                assert(false);
            }
        }
        amd
    }
}

/// A register is known by its four characters.
proof fn lemma_register(register: u32)
    ensures
        register == register_text(register)[0] as int + 256 * (register_text(register)[1] as int)
            + 65536 * (register_text(register)[2] as int) + 16777216 * (register_text(
            register,
        )[3] as int),
{
}

/// How often a thread spins at most.
pub open spec fn max_spin_of(target: Target) -> usize {
    match target {
        Target::WindowsX86(vendor) => if vendor.text() == "AuthenticAMD"@ {
            0
        } else {
            6
        },
        Target::Posix => 40,
        Target::Other => 6,
    }
}

/// What a thread does when it spins once.
#[derive(Clone, Copy, PartialEq, Eq, Debug)]
pub enum Pause {
    /// It yields the rest of its time slice.
    Yield,
    /// It tells the processor that it spins, so many times.
    Hint(u32),
}

/// How long a thread stays on the processor for its spin number `iteration`: two to that power, but
/// no shorter than 100. The power is a signed number of 32 bits, and the last one is negative.
pub open spec fn hints_of(iteration: nat) -> nat {
    if iteration < 31 && vstd::arithmetic::power2::pow2(iteration) > 100 {
        vstd::arithmetic::power2::pow2(iteration)
    } else {
        100
    }
}

/// Counts how often a thread has spun.
#[derive(Clone, Copy, PartialEq, Eq, Debug)]
pub struct Backoff {
    pub iteration: usize,
    pub max_spin: usize,
}

impl Backoff {
    /// A thread that has not spun yet.
    pub fn new(target: Target) -> (backoff: Self)
        ensures
            backoff == (Backoff { iteration: 0, max_spin: max_spin_of(target) }),
    {
        Self { iteration: 0, max_spin: Self::get_max_spin(target) }
    }

    /// Starts over.
    pub fn reset(&mut self)
        ensures
            *final(self) == (Backoff { iteration: 0, ..*old(self) }),
    {
        self.iteration = 0;
    }

    /// Whether the thread has another spin left.
    pub open spec fn can_spin(self) -> bool {
        self.iteration < self.max_spin
    }

    /// The count after one spin.
    pub open spec fn spun(self) -> Backoff {
        if self.can_spin() {
            Backoff { iteration: (self.iteration + 1) as usize, ..self }
        } else {
            self
        }
    }

    /// Counts one spin; says whether the thread had one left.
    pub fn spin(&mut self) -> (spins: bool)
        ensures
            spins == old(self).can_spin(),
            *final(self) == old(self).spun(),
    {
        if self.iteration < self.max_spin {
            self.iteration = self.iteration + 1;
            true
        } else {
            false
        }
    }

    /// What the thread does for the spin that it has just counted. Where threads do not yield, it
    /// stays on the processor twice as long each time, and never short.
    pub fn pause(&self, yields: bool) -> (pause: Pause)
        requires
            !yields ==> self.iteration < 32,
        ensures
            yields ==> pause is Yield,
            !yields ==> pause is Hint && pause->Hint_0 == hints_of(self.iteration as nat),
    {
        if yields {
            Pause::Yield
        } else {
            let iteration: u32 = self.iteration as u32;
            if iteration == 31 {
                return Pause::Hint(100);
            }
            proof {
                vstd::arithmetic::power2::lemma_pow2_strictly_increases(iteration as nat, 32);
                vstd::arithmetic::power2::lemma2_to64();
                vstd::bits::lemma_u32_shl_is_mul(1, iteration);
            }
            let hints: u32 = 1u32 << iteration;
            if hints > 100 {
                Pause::Hint(hints)
            } else {
                Pause::Hint(100)
            }
        }
    }

    /// How often a thread spins at most. On AMD processors it blocks at once.
    pub fn get_max_spin(target: Target) -> (max_spin: usize)
        ensures
            max_spin == max_spin_of(target),
    {
        match target {
            Target::WindowsX86(vendor) => {
                if vendor.is_amd() {
                    0
                } else {
                    6
                }
            },
            Target::Posix => 40,
            Target::Other => 6,
        }
    }
}

} // verus!
