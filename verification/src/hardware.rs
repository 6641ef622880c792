//! The registers of the machine and the numbers that its instructions are made of.

use vstd::prelude::*;

verus! {

/// The number of words of program memory.
pub const ROM_SIZE: usize = 0x8000;

/// The number of words of data memory.
pub const RAM_SIZE: usize = 0x4000;

/// The number of characters in a line of the display.
pub const VGA_WIDTH: usize = 100;

/// The number of lines of the display.
pub const VGA_HEIGHT: usize = 60;

/// The operations of the machine, as the highest four bits of an instruction.
pub const LOAD: u16 = 0;

pub const STR: u16 = 1;

pub const IMOV: u16 = 2;

pub const IMOH: u16 = 3;

pub const PUSH: u16 = 5;

pub const POP: u16 = 6;

pub const HALT: u16 = 7;

pub const ALU: u16 = 8;

pub const IALU: u16 = 9;

pub const JMP: u16 = 10;

pub const RTI: u16 = 12;

/// The index of the register that holds the address of the interrupt service routine.
pub const ISR_REGISTER: u16 = 12;

/// The index of the stack pointer.
pub const SP_REGISTER: u16 = 13;

/// The index of the status register.
pub const SR_REGISTER: u16 = 14;

/// The index of the program counter.
pub const PC_REGISTER: u16 = 15;

/// A flag of the status register.
#[derive(Debug, Clone, Copy, PartialEq, Eq, Structural)]
pub enum StatusRegisterFlag {
    /// The result has all its bits set.
    X,
    /// The result is zero.
    Z,
    /// The highest bit of the result is set.
    N,
    /// The addition carried out of the highest bit, or the subtraction borrowed.
    C,
    /// The signed addition or subtraction overflowed.
    V,
}

/// The bit of the flag in the status register.
pub open spec fn flag_mask(flag: StatusRegisterFlag) -> u16 {
    match flag {
        StatusRegisterFlag::X => 0x0001,
        StatusRegisterFlag::Z => 0x0002,
        StatusRegisterFlag::N => 0x0004,
        StatusRegisterFlag::C => 0x0008,
        StatusRegisterFlag::V => 0x0010,
    }
}

/// Whether the flag is set in the status word `sr`.
pub open spec fn flag_of(sr: u16, flag: StatusRegisterFlag) -> bool {
    sr & flag_mask(flag) != 0
}

/// The status word `sr` with the flag set to `val`.
pub open spec fn with_flag(sr: u16, flag: StatusRegisterFlag, val: bool) -> u16 {
    if val {
        sr | flag_mask(flag)
    } else {
        sr & !flag_mask(flag)
    }
}

/// A flag that was set to a value has that value, and the other flags are as they were.
pub proof fn lemma_with_flag(sr: u16, flag: StatusRegisterFlag, val: bool, other: StatusRegisterFlag)
    ensures
        flag_of(with_flag(sr, flag, val), flag) == val,
        other != flag ==> flag_of(with_flag(sr, flag, val), other) == flag_of(sr, other),
{
    let m = flag_mask(flag);
    let o = flag_mask(other);
    assert(m == 1 || m == 2 || m == 4 || m == 8 || m == 16);
    assert(o == 1 || o == 2 || o == 4 || o == 8 || o == 16);
    assert((m == 1 || m == 2 || m == 4 || m == 8 || m == 16) ==> (sr | m) & m != 0 && (sr & !m) & m
        == 0) by (bit_vector);
    if other != flag {
        assert(m != o);
        assert((m == 1 || m == 2 || m == 4 || m == 8 || m == 16) && (o == 1 || o == 2 || o == 4 || o
            == 8 || o == 16) && m != o ==> (sr | m) & o == sr & o && (sr & !m) & o == sr & o)
            by (bit_vector);
    }
}

impl StatusRegisterFlag {
    /// The bit of the flag in the status register.
    pub fn mask(&self) -> (m: u16)
        ensures
            m == flag_mask(*self),
    {
        match *self {
            StatusRegisterFlag::X => 0x0001,
            StatusRegisterFlag::Z => 0x0002,
            StatusRegisterFlag::N => 0x0004,
            StatusRegisterFlag::C => 0x0008,
            StatusRegisterFlag::V => 0x0010,
        }
    }
}

/// The status register: bit 0 is X, bit 1 is Z, bit 2 is N, bit 3 is C and bit 4 is V.
#[derive(Debug, Clone, Copy, PartialEq, Eq, Structural)]
pub struct StatusRegister {
    pub sr: u16,
}

impl StatusRegister {
    /// Whether the flag is set.
    pub fn get(&self, flag: StatusRegisterFlag) -> (set: bool)
        ensures
            set == flag_of(self.sr, flag),
    {
        (self.sr & flag.mask()) != 0
    }

    /// Sets the flag to `val` and leaves the other flags as they are.
    pub fn set(&mut self, flag: StatusRegisterFlag, val: bool)
        ensures
            final(self).sr == with_flag(old(self).sr, flag, val),
    {
        if val {
            self.sr = self.sr | flag.mask();
        } else {
            self.sr = self.sr & !flag.mask();
        }
    }
}

/// The register file: twelve general registers, then the address of the
/// interrupt service routine, the stack pointer, the status register and the
/// program counter.
#[derive(Debug, Clone, Copy)]
pub struct Registers {
    pub general: [u16; 12],
    pub isr: u16,
    pub sp: u16,
    pub sr: StatusRegister,
    pub pc: u16,
}

impl View for Registers {
    type V = Seq<u16>;

    /// The sixteen registers by index.
    open spec fn view(&self) -> Seq<u16> {
        Seq::new(
            16,
            |i: int|
                if 0 <= i < 12 {
                    self.general@[i]
                } else if i == 12 {
                    self.isr
                } else if i == 13 {
                    self.sp
                } else if i == 14 {
                    self.sr.sr
                } else {
                    self.pc
                },
        )
    }
}

/// The registers after a reset: all zero, the stack pointer at the top of the data memory.
pub open spec fn reset_registers() -> Seq<u16> {
    Seq::new(
        16,
        |i: int|
            if i == 13 {
                0xBFFFu16
            } else {
                0u16
            },
    )
}

impl Registers {
    /// The registers after a reset.
    pub fn new() -> (r: Registers)
        ensures
            r@ == reset_registers(),
    {
        let r = Registers { general: [0; 12], isr: 0, sp: 0xBFFF, sr: StatusRegister { sr: 0 }, pc: 0 };
        assert(r@ =~= reset_registers());
        r
    }

    /// The register of the index.
    pub fn get(&self, index: u16) -> (val: u16)
        requires
            index < 16,
        ensures
            val == self@[index as int],
    {
        if index < 12 {
            self.general[index as usize]
        } else if index == 12 {
            self.isr
        } else if index == 13 {
            self.sp
        } else if index == 14 {
            self.sr.sr
        } else {
            self.pc
        }
    }

    /// Sets the register of the index.
    pub fn set(&mut self, index: u16, val: u16)
        requires
            index < 16,
        ensures
            final(self)@ == old(self)@.update(index as int, val),
    {
        if index < 12 {
            self.general[index as usize] = val;
        } else if index == 12 {
            self.isr = val;
        } else if index == 13 {
            self.sp = val;
        } else if index == 14 {
            self.sr.sr = val;
        } else {
            self.pc = val;
        }
        assert(self@ =~= old(self)@.update(index as int, val));
    }
}

} // verus!
