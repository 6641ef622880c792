//! The processor: the arithmetic unit with its flags, and the execution of
//! one instruction or one interrupt at a time.

use crate::devices::{Devices, DevicesView};
use crate::keyboard::Key;
use crate::hardware::{
    flag_of, lemma_with_flag, reset_registers, with_flag, Registers, StatusRegister,
    StatusRegisterFlag,
};
use vstd::prelude::*;

verus! {

/// The number that the word stands for when it is read as signed.
pub open spec fn signed(x: u16) -> int {
    if x >= 0x8000 {
        x - 0x10000
    } else {
        x as int
    }
}

/// The 16-bit word that `x` wraps around to.
pub open spec fn wrap(x: int) -> u16 {
    (x % 0x10000) as u16
}

/// Whether the bit of the index `index` of `n` is set.
pub open spec fn bit_of(n: u16, index: u8) -> bool {
    (n >> index) & 1 != 0
}

/// Whether the bit of the index `index` of `n` is set.
pub fn bit(n: u16, index: u8) -> (set: bool)
    requires
        index < 16,
    ensures
        set == bit_of(n, index),
{
    (n >> index) & 1 != 0
}

/// `a` shifted right by `b` bits with the sign bit kept; a shift by sixteen
/// or more bits leaves sixteen copies of the sign bit.
pub open spec fn shift_right_signed(a: u16, b: u16) -> u16 {
    let n = if b >= 16 {
        15u16
    } else {
        b
    };
    if a < 0x8000 {
        a >> n
    } else {
        !((!a) >> n)
    }
}

/// The result of the operation `op` of the arithmetic unit on `a` and `b`.
/// Operation 7 compares: it computes the difference for the flags only.
pub open spec fn alu_value(op: u16, a: u16, b: u16) -> u16 {
    if op == 0 {
        !a
    } else if op == 1 {
        a & b
    } else if op == 2 {
        a | b
    } else if op == 3 {
        a ^ b
    } else if op == 4 {
        wrap(a + b)
    } else if op == 5 || op == 7 {
        wrap(a - b)
    } else if op == 6 {
        b
    } else if op == 8 {
        if b >= 16 {
            0
        } else {
            a >> b
        }
    } else if op == 9 {
        shift_right_signed(a, b)
    } else {
        if b >= 16 {
            0
        } else {
            a << b
        }
    }
}

/// Whether the operation carries: an addition out of the highest bit, a
/// subtraction by borrowing.
pub open spec fn alu_carry(op: u16, a: u16, b: u16) -> bool {
    if op == 4 {
        a + b > 0xFFFF
    } else {
        a < b
    }
}

/// Whether the operation overflows when its operands are read as signed.
pub open spec fn alu_overflow(op: u16, a: u16, b: u16) -> bool {
    if op == 4 {
        signed(a) + signed(b) > 32767 || signed(a) + signed(b) < -32768
    } else {
        signed(a) - signed(b) > 32767 || signed(a) - signed(b) < -32768
    }
}

/// The status word after the operation. N, Z and X describe the result of
/// every operation; C and V change with additions and subtractions only.
pub open spec fn alu_flags(op: u16, a: u16, b: u16, sr: u16) -> u16 {
    let value = alu_value(op, a, b);
    let n = with_flag(sr, StatusRegisterFlag::N, value >= 0x8000);
    let z = with_flag(n, StatusRegisterFlag::Z, value == 0);
    let x = with_flag(z, StatusRegisterFlag::X, value == 0xFFFF);
    if op == 4 || op == 5 || op == 7 {
        let v = with_flag(x, StatusRegisterFlag::V, alu_overflow(op, a, b));
        with_flag(v, StatusRegisterFlag::C, alu_carry(op, a, b))
    } else {
        x
    }
}

/// What each flag says after an operation.
pub proof fn flags_describe_the_result(op: u16, a: u16, b: u16, sr: u16)
    ensures
        flag_of(alu_flags(op, a, b, sr), StatusRegisterFlag::N) == (alu_value(op, a, b) >= 0x8000),
        flag_of(alu_flags(op, a, b, sr), StatusRegisterFlag::Z) == (alu_value(op, a, b) == 0),
        flag_of(alu_flags(op, a, b, sr), StatusRegisterFlag::X) == (alu_value(op, a, b) == 0xFFFF),
        flag_of(alu_flags(op, a, b, sr), StatusRegisterFlag::C) == if op == 4 || op == 5 || op == 7 {
            alu_carry(op, a, b)
        } else {
            flag_of(sr, StatusRegisterFlag::C)
        },
        flag_of(alu_flags(op, a, b, sr), StatusRegisterFlag::V) == if op == 4 || op == 5 || op == 7 {
            alu_overflow(op, a, b)
        } else {
            flag_of(sr, StatusRegisterFlag::V)
        },
{
    let value = alu_value(op, a, b);
    let n = with_flag(sr, StatusRegisterFlag::N, value >= 0x8000);
    let z = with_flag(n, StatusRegisterFlag::Z, value == 0);
    let x = with_flag(z, StatusRegisterFlag::X, value == 0xFFFF);
    let v = with_flag(x, StatusRegisterFlag::V, alu_overflow(op, a, b));
    let c = with_flag(v, StatusRegisterFlag::C, alu_carry(op, a, b));
    lemma_with_flag(sr, StatusRegisterFlag::N, value >= 0x8000, StatusRegisterFlag::C);
    lemma_with_flag(sr, StatusRegisterFlag::N, value >= 0x8000, StatusRegisterFlag::V);
    lemma_with_flag(n, StatusRegisterFlag::Z, value == 0, StatusRegisterFlag::N);
    lemma_with_flag(n, StatusRegisterFlag::Z, value == 0, StatusRegisterFlag::C);
    lemma_with_flag(n, StatusRegisterFlag::Z, value == 0, StatusRegisterFlag::V);
    lemma_with_flag(z, StatusRegisterFlag::X, value == 0xFFFF, StatusRegisterFlag::N);
    lemma_with_flag(z, StatusRegisterFlag::X, value == 0xFFFF, StatusRegisterFlag::Z);
    lemma_with_flag(z, StatusRegisterFlag::X, value == 0xFFFF, StatusRegisterFlag::C);
    lemma_with_flag(z, StatusRegisterFlag::X, value == 0xFFFF, StatusRegisterFlag::V);
    lemma_with_flag(x, StatusRegisterFlag::V, alu_overflow(op, a, b), StatusRegisterFlag::N);
    lemma_with_flag(x, StatusRegisterFlag::V, alu_overflow(op, a, b), StatusRegisterFlag::Z);
    lemma_with_flag(x, StatusRegisterFlag::V, alu_overflow(op, a, b), StatusRegisterFlag::X);
    lemma_with_flag(x, StatusRegisterFlag::V, alu_overflow(op, a, b), StatusRegisterFlag::C);
    lemma_with_flag(v, StatusRegisterFlag::C, alu_carry(op, a, b), StatusRegisterFlag::N);
    lemma_with_flag(v, StatusRegisterFlag::C, alu_carry(op, a, b), StatusRegisterFlag::Z);
    lemma_with_flag(v, StatusRegisterFlag::C, alu_carry(op, a, b), StatusRegisterFlag::X);
    lemma_with_flag(v, StatusRegisterFlag::C, alu_carry(op, a, b), StatusRegisterFlag::V);
}

/// Runs the operation `op` of the arithmetic unit on `a` and `b`, sets the
/// flags, and returns the result.
pub fn alu(op: u16, a: u16, b: u16, sr: &mut StatusRegister) -> (value: u16)
    requires
        op <= 0xA,
    ensures
        value == alu_value(op, a, b),
        final(sr).sr == alu_flags(op, a, b, old(sr).sr),
{
    let value: u16 = if op == 0 {
        !a
    } else if op == 1 {
        a & b
    } else if op == 2 {
        a | b
    } else if op == 3 {
        a ^ b
    } else if op == 4 {
        ((a as u32 + b as u32) % 0x10000) as u16
    } else if op == 5 || op == 7 {
        ((0x10000u32 + a as u32 - b as u32) % 0x10000) as u16
    } else if op == 6 {
        b
    } else if op == 8 {
        if b >= 16 {
            0
        } else {
            a >> b
        }
    } else if op == 9 {
        let n: u16 = if b >= 16 {
            15
        } else {
            b
        };
        if a < 0x8000 {
            a >> n
        } else {
            !((!a) >> n)
        }
    } else {
        if b >= 16 {
            0
        } else {
            a << b
        }
    };
    sr.set(StatusRegisterFlag::N, value >= 0x8000);
    sr.set(StatusRegisterFlag::Z, value == 0);
    sr.set(StatusRegisterFlag::X, value == 0xFFFF);
    if op == 4 {
        let same_sign = (a >= 0x8000) == (b >= 0x8000);
        sr.set(StatusRegisterFlag::V, same_sign && ((a >= 0x8000) != (value >= 0x8000)));
        sr.set(StatusRegisterFlag::C, a as u32 + b as u32 > 0xFFFF);
    } else if op == 5 || op == 7 {
        let other_sign = (a >= 0x8000) != (b >= 0x8000);
        sr.set(StatusRegisterFlag::V, other_sign && ((a >= 0x8000) != (value >= 0x8000)));
        sr.set(StatusRegisterFlag::C, a < b);
    }
    value
}


/// What the machine was doing when an access to memory failed, or when it
/// met an operation that the arithmetic unit does not have.
#[derive(Debug, Clone, Copy, PartialEq, Eq, Structural)]
pub enum Stage {
    /// Saving the program counter on the way into the interrupt service routine.
    InterruptPc,
    /// Saving the status register on the way into the interrupt service routine.
    InterruptSr,
    /// Reading the instruction.
    Fetch,
    Load,
    Store,
    Push,
    Pop,
    /// Reading the return address of a returning jump.
    Jump,
    /// Saving the return address of a linking jump.
    JumpLink,
    /// Restoring the status register on the way out of the interrupt service routine.
    RtiSr,
    /// Restoring the program counter on the way out of the interrupt service routine.
    RtiPc,
    /// Running an operation of the arithmetic unit.
    Alu,
}

/// A fault that stops the machine.
#[derive(Debug, Clone, Copy, PartialEq, Eq, Structural)]
pub struct EmuError {
    /// The program counter of the instruction.
    pub pc: u16,
    pub stage: Stage,
    /// The address that could not be read or written; for the stage `Alu` the number of the operation.
    pub addr: u16,
}

/// A write to the display memory.
#[derive(Debug, Clone, Copy, PartialEq, Eq, Structural)]
pub struct VideoWrite {
    pub addr: u16,
    pub val: u16,
}

/// The machine: its registers, its memory, and whether it has halted.
#[derive(Debug)]
pub struct Machine {
    pub registers: Registers,
    pub devices: Devices,
    pub halt: bool,
}

/// The mathematical value of the machine.
pub struct MachineView {
    /// The sixteen registers by index.
    pub regs: Seq<u16>,
    pub mem: DevicesView,
    pub halt: bool,
}

impl View for Machine {
    type V = MachineView;

    open spec fn view(&self) -> MachineView {
        MachineView { regs: self.registers@, mem: self.devices@, halt: self.halt }
    }
}

/// What a step leaves: the machine afterwards and the writes to the display
/// memory that the step made, in order.
pub type Stepped = Result<(MachineView, Seq<VideoWrite>), EmuError>;

/// The writes to the display memory among one write to memory.
pub open spec fn video(addr: u16, val: u16) -> Seq<VideoWrite> {
    if addr < 0x8000 {
        seq![VideoWrite { addr, val }]
    } else {
        Seq::empty()
    }
}

/// Whether a jump with the condition code `code` is taken under the status word `sr`.
pub open spec fn jump_taken(code: u16, sr: u16) -> bool {
    if code == 0 {
        true
    } else if code == 1 {
        flag_of(sr, StatusRegisterFlag::Z)
    } else if code == 2 {
        !flag_of(sr, StatusRegisterFlag::Z)
    } else if code == 3 {
        flag_of(sr, StatusRegisterFlag::N)
    } else if code == 4 {
        !flag_of(sr, StatusRegisterFlag::Z) && !flag_of(sr, StatusRegisterFlag::N)
    } else {
        false
    }
}

impl MachineView {
    pub open spec fn pc(self) -> u16 {
        self.regs[15]
    }

    pub open spec fn sp(self) -> u16 {
        self.regs[13]
    }

    pub open spec fn sr(self) -> u16 {
        self.regs[14]
    }

    /// The machine with `key` in the keyboard register.
    pub open spec fn with_key(self, key: u16) -> MachineView {
        MachineView { mem: DevicesView { key, ..self.mem }, ..self }
    }

    /// The machine with the register `index` set to `val`.
    pub open spec fn with_reg(self, index: int, val: u16) -> MachineView {
        MachineView { regs: self.regs.update(index, val), ..self }
    }

    /// The machine with the program counter moved to the next instruction.
    pub open spec fn advanced(self) -> MachineView {
        self.with_reg(15, wrap(self.pc() + 1))
    }

    /// The entry into the interrupt service routine: the program counter and
    /// then the status register are pushed, and the program counter is set to
    /// the address in the register of the routine.
    pub open spec fn interrupt(self) -> Stepped {
        let sp1 = wrap(self.sp() - 1);
        let sp2 = wrap(self.sp() - 2);
        match self.mem.write(sp1, self.pc()) {
            None => Err(EmuError { pc: self.pc(), stage: Stage::InterruptPc, addr: sp1 }),
            Some(mem1) => match mem1.write(sp2, self.sr()) {
                None => Err(EmuError { pc: self.pc(), stage: Stage::InterruptSr, addr: sp2 }),
                Some(mem2) => Ok(
                    (
                        MachineView { mem: mem2, ..self }.with_reg(13, sp2).with_reg(
                            15,
                            self.regs[12],
                        ),
                        video(sp1, self.pc()) + video(sp2, self.sr()),
                    ),
                ),
            },
        }
    }

    /// An operation of the arithmetic unit on the register `r1` and the
    /// operand `b`. The flags are set first; then the result goes to `r1`,
    /// unless the operation is the comparison.
    pub open spec fn arithmetic(self, op: u16, r1: int, b: u16) -> Stepped {
        if op > 0xA {
            Err(EmuError { pc: self.pc(), stage: Stage::Alu, addr: op })
        } else {
            let a = self.regs[r1];
            let flagged = self.with_reg(14, alu_flags(op, a, b, self.sr()));
            let done = if op == 7 {
                flagged
            } else {
                flagged.with_reg(r1, alu_value(op, a, b))
            };
            Ok((done.advanced(), Seq::empty()))
        }
    }

    /// A jump with the condition code `code`. A jump that is taken returns
    /// through the stack where `flags` has bit 1, else it saves the address
    /// of the next instruction on the stack where `flags` has bit 0, and goes
    /// to the address in the register `r1`.
    pub open spec fn jump(self, r1: int, flags: u16, code: u16) -> Stepped {
        if !jump_taken(code, self.sr()) {
            Ok((self.advanced(), Seq::empty()))
        } else if (flags / 2) % 2 == 1 {
            match self.mem.read(self.sp()) {
                None => Err(EmuError { pc: self.pc(), stage: Stage::Jump, addr: self.sp() }),
                Some(target) => Ok(
                    (self.with_reg(15, target).with_reg(13, wrap(self.sp() + 1)), Seq::empty()),
                ),
            }
        } else if flags % 2 == 1 {
            let sp1 = wrap(self.sp() - 1);
            let link = wrap(self.pc() + 1);
            match self.mem.write(sp1, link) {
                None => Err(EmuError { pc: self.pc(), stage: Stage::JumpLink, addr: sp1 }),
                Some(mem1) => {
                    let pushed = MachineView { mem: mem1, ..self }.with_reg(13, sp1);
                    Ok((pushed.with_reg(15, pushed.regs[r1]), video(sp1, link)))
                },
            }
        } else {
            Ok((self.with_reg(15, self.regs[r1]), Seq::empty()))
        }
    }

    /// The return from the interrupt service routine: the status register and
    /// then the program counter are popped.
    pub open spec fn return_from_interrupt(self) -> Stepped {
        let sp1 = wrap(self.sp() + 1);
        match self.mem.read(self.sp()) {
            None => Err(EmuError { pc: self.pc(), stage: Stage::RtiSr, addr: self.sp() }),
            Some(sr) => match self.mem.read(sp1) {
                None => Err(EmuError { pc: self.pc(), stage: Stage::RtiPc, addr: sp1 }),
                Some(target) => Ok(
                    (
                        self.with_reg(14, sr).with_reg(13, wrap(self.sp() + 2)).with_reg(15, target),
                        Seq::empty(),
                    ),
                ),
            },
        }
    }

    /// The execution of the instruction word `inst`. The highest four bits
    /// are the operation, the next four the register `r1`, the next four the
    /// register `r2`, and the lowest four an offset, an operation of the
    /// arithmetic unit or a condition code; the lowest eight are an immediate
    /// value. An operation that the machine does not have does nothing.
    pub open spec fn execute(self, inst: u16) -> Stepped {
        let opcode = inst / 4096;
        let r1 = (inst / 256) % 16;
        let r2 = (inst / 16) % 16;
        let low4 = inst % 16;
        let imm8 = inst % 256;
        if opcode == 0 {
            let source = wrap(self.regs[r2 as int] + low4);
            match self.mem.read(source) {
                None => Err(EmuError { pc: self.pc(), stage: Stage::Load, addr: source }),
                Some(val) => Ok((self.with_reg(r1 as int, val).advanced(), Seq::empty())),
            }
        } else if opcode == 1 {
            let target = wrap(self.regs[r1 as int] + low4);
            match self.mem.write(target, self.regs[r2 as int]) {
                None => Err(EmuError { pc: self.pc(), stage: Stage::Store, addr: target }),
                Some(mem1) => Ok(
                    (
                        MachineView { mem: mem1, ..self }.advanced(),
                        video(target, self.regs[r2 as int]),
                    ),
                ),
            }
        } else if opcode == 2 {
            let val: u16 = if imm8 >= 128 {
                (0xFF00 + imm8) as u16
            } else {
                imm8
            };
            Ok((self.with_reg(r1 as int, val).advanced(), Seq::empty()))
        } else if opcode == 3 {
            let val = (imm8 * 256 + self.regs[r1 as int] % 256) as u16;
            Ok((self.with_reg(r1 as int, val).advanced(), Seq::empty()))
        } else if opcode == 5 {
            let lowered = self.with_reg(r1 as int, wrap(self.regs[r1 as int] - 1));
            let target = lowered.regs[r1 as int];
            let val = lowered.regs[r2 as int];
            match self.mem.write(target, val) {
                None => Err(EmuError { pc: self.pc(), stage: Stage::Push, addr: target }),
                Some(mem1) => Ok(
                    (MachineView { mem: mem1, ..lowered }.advanced(), video(target, val)),
                ),
            }
        } else if opcode == 6 {
            let source = self.regs[r2 as int];
            match self.mem.read(source) {
                None => Err(EmuError { pc: self.pc(), stage: Stage::Pop, addr: source }),
                Some(val) => {
                    let loaded = self.with_reg(r1 as int, val);
                    Ok(
                        (
                            loaded.with_reg(r2 as int, wrap(loaded.regs[r2 as int] + 1)).advanced(),
                            Seq::empty(),
                        ),
                    )
                },
            }
        } else if opcode == 7 {
            Ok((MachineView { halt: true, ..self }, Seq::empty()))
        } else if opcode == 8 {
            self.arithmetic(low4, r1 as int, self.regs[r2 as int])
        } else if opcode == 9 {
            self.arithmetic(low4, r1 as int, r2)
        } else if opcode == 10 {
            self.jump(r1 as int, r2, low4)
        } else if opcode == 12 {
            self.return_from_interrupt()
        } else {
            Ok((self.advanced(), Seq::empty()))
        }
    }

    /// One cycle of the machine. With the interrupt flag `irq` set the
    /// machine enters the interrupt service routine and runs no instruction;
    /// else it reads the instruction at the program counter and runs it.
    pub open spec fn step(self, irq: bool) -> Stepped {
        if irq {
            self.interrupt()
        } else {
            match self.mem.read(self.pc()) {
                None => Err(EmuError { pc: self.pc(), stage: Stage::Fetch, addr: self.pc() }),
                Some(inst) => self.execute(inst),
            }
        }
    }

    /// The machine after at most `budget` cycles without interrupts, stopping
    /// early once it has halted: the machine, and the number of cycles run.
    pub open spec fn run(self, budget: nat) -> Result<(MachineView, nat), EmuError>
        decreases budget,
    {
        if budget == 0 || self.halt {
            Ok((self, 0))
        } else {
            match self.step(false) {
                Err(e) => Err(e),
                Ok((next, _)) => match next.run((budget - 1) as nat) {
                    Err(e) => Err(e),
                    Ok((last, cycles)) => Ok((last, cycles + 1)),
                },
            }
        }
    }
}

/// The word `x + y` wrapped to 16 bits.
fn wrapping(x: u16, y: u16) -> (r: u16)
    ensures
        r == wrap(x + y),
        r == wrap(x - (0x10000 - y)),
{
    ((x as u32 + y as u32) % 0x10000) as u16
}

impl Machine {
    /// The machine after a reset with the program `rom`: the registers are
    /// zero but for the stack pointer, which is at the top of the data
    /// memory; the display memory and the data memory are zero.
    pub fn new(rom: Vec<u16>) -> (m: Machine)
        ensures
            m@.mem.rom == rom@,
            m@.mem.vram == Seq::new(6000, |i: int| 0u16),
            m@.mem.ram == Seq::new(0x4000, |i: int| 0u16),
            m@.mem.key == 0,
            m@.regs == reset_registers(),
            !m@.halt,
    {
        let mut vram: Vec<u16> = Vec::new();
        while vram.len() < 6000
            invariant
                vram@.len() <= 6000,
                forall|i: int| 0 <= i < vram@.len() ==> vram@[i] == 0,
            decreases 6000 - vram@.len(),
        {
            vram.push(0);
        }
        let mut ram: Vec<u16> = Vec::new();
        while ram.len() < 0x4000
            invariant
                ram@.len() <= 0x4000,
                forall|i: int| 0 <= i < ram@.len() ==> ram@[i] == 0,
            decreases 0x4000 - ram@.len(),
        {
            ram.push(0);
        }
        assert(vram@ =~= Seq::new(6000, |i: int| 0u16));
        assert(ram@ =~= Seq::new(0x4000, |i: int| 0u16));
        Machine { registers: Registers::new(), devices: Devices::new(rom, vram, ram, 0), halt: false }
    }

    /// Writes to memory for the stage `stage`, and records a write to the display memory.
    fn store(&mut self, addr: u16, val: u16, stage: Stage, writes: &mut Vec<VideoWrite>) -> (r:
        Result<(), EmuError>)
        ensures
            final(self).registers == old(self).registers,
            final(self).halt == old(self).halt,
            match r {
                Ok(()) => {
                    &&& old(self)@.mem.write(addr, val) == Some(final(self)@.mem)
                    &&& final(writes)@ == old(writes)@ + video(addr, val)
                },
                Err(e) => {
                    &&& old(self)@.mem.write(addr, val) is None
                    &&& e == (EmuError { pc: old(self)@.pc(), stage, addr })
                    &&& *final(self) == *old(self)
                    &&& final(writes)@ == old(writes)@
                },
            },
    {
        match self.devices.write(addr, val) {
            Ok(()) => {
                if addr < 0x8000 {
                    writes.push(VideoWrite { addr, val });
                } else {
                    assert(writes@ + video(addr, val) =~= writes@);
                }
                Ok(())
            },
            Err(_) => Err(EmuError { pc: self.registers.get(15), stage, addr }),
        }
    }

    /// Reads from memory for the stage `stage`.
    fn fetch(&self, addr: u16, stage: Stage) -> (r: Result<u16, EmuError>)
        ensures
            match r {
                Ok(val) => self@.mem.read(addr) == Some(val),
                Err(e) => self@.mem.read(addr) is None && e == (EmuError {
                    pc: self@.pc(),
                    stage,
                    addr,
                }),
            },
    {
        match self.devices.read(addr) {
            Ok(val) => Ok(val),
            Err(_) => Err(EmuError { pc: self.registers.get(15), stage, addr }),
        }
    }

    /// Moves the program counter to the next instruction.
    fn advance(&mut self)
        ensures
            final(self)@ == old(self)@.advanced(),
    {
        let pc = self.registers.get(15);
        self.registers.set(15, wrapping(pc, 1));
    }

    /// Enters the interrupt service routine.
    pub fn interrupt(&mut self) -> (r: Result<Vec<VideoWrite>, EmuError>)
        ensures
            match r {
                Ok(writes) => old(self)@.interrupt() == Ok::<
                    (MachineView, Seq<VideoWrite>),
                    EmuError,
                >((final(self)@, writes@)),
                Err(e) => old(self)@.interrupt() == Err::<(MachineView, Seq<VideoWrite>), EmuError>(
                    e,
                ),
            },
    {
        let mut writes: Vec<VideoWrite> = Vec::new();
        let pc = self.registers.get(15);
        let sr = self.registers.get(14);
        let sp = self.registers.get(13);
        let sp1 = wrapping(sp, 0xFFFF);
        let sp2 = wrapping(sp, 0xFFFE);
        match self.store(sp1, pc, Stage::InterruptPc, &mut writes) {
            Ok(()) => {},
            Err(e) => {
                return Err(e);
            },
        }
        match self.store(sp2, sr, Stage::InterruptSr, &mut writes) {
            Ok(()) => {},
            Err(e) => {
                return Err(e);
            },
        }
        let target = self.registers.get(12);
        self.registers.set(13, sp2);
        self.registers.set(15, target);
        assert(writes@ =~= video(sp1, pc) + video(sp2, sr));
        Ok(writes)
    }
}


impl Machine {
    /// Runs an operation of the arithmetic unit on the register `r1` and the operand `b`.
    fn arithmetic(&mut self, op: u16, r1: u16, b: u16) -> (r: Result<Vec<VideoWrite>, EmuError>)
        requires
            r1 < 16,
        ensures
            match r {
                Ok(writes) => old(self)@.arithmetic(op, r1 as int, b) == Ok::<
                    (MachineView, Seq<VideoWrite>),
                    EmuError,
                >((final(self)@, writes@)),
                Err(e) => old(self)@.arithmetic(op, r1 as int, b) == Err::<
                    (MachineView, Seq<VideoWrite>),
                    EmuError,
                >(e),
            },
    {
        if op > 0xA {
            return Err(EmuError { pc: self.registers.get(15), stage: Stage::Alu, addr: op });
        }
        let a = self.registers.get(r1);
        let mut sr = StatusRegister { sr: self.registers.get(14) };
        let value = alu(op, a, b, &mut sr);
        self.registers.set(14, sr.sr);
        if op != 7 {
            self.registers.set(r1, value);
        }
        self.advance();
        Ok(Vec::new())
    }

    /// Whether a jump with the condition code `code` is taken.
    fn takes_jump(&self, code: u16) -> (taken: bool)
        ensures
            taken == jump_taken(code, self@.sr()),
    {
        let sr = StatusRegister { sr: self.registers.get(14) };
        if code == 0 {
            true
        } else if code == 1 {
            sr.get(StatusRegisterFlag::Z)
        } else if code == 2 {
            !sr.get(StatusRegisterFlag::Z)
        } else if code == 3 {
            sr.get(StatusRegisterFlag::N)
        } else if code == 4 {
            !sr.get(StatusRegisterFlag::Z) && !sr.get(StatusRegisterFlag::N)
        } else {
            false
        }
    }

    /// Runs a jump.
    fn jump(&mut self, r1: u16, flags: u16, code: u16) -> (r: Result<Vec<VideoWrite>, EmuError>)
        requires
            r1 < 16,
        ensures
            match r {
                Ok(writes) => old(self)@.jump(r1 as int, flags, code) == Ok::<
                    (MachineView, Seq<VideoWrite>),
                    EmuError,
                >((final(self)@, writes@)),
                Err(e) => old(self)@.jump(r1 as int, flags, code) == Err::<
                    (MachineView, Seq<VideoWrite>),
                    EmuError,
                >(e),
            },
    {
        let mut writes: Vec<VideoWrite> = Vec::new();
        if !self.takes_jump(code) {
            self.advance();
            return Ok(writes);
        }
        let sp = self.registers.get(13);
        if (flags / 2) % 2 == 1 {
            let target = match self.fetch(sp, Stage::Jump) {
                Ok(target) => target,
                Err(e) => {
                    return Err(e);
                },
            };
            self.registers.set(15, target);
            self.registers.set(13, wrapping(sp, 1));
        } else if flags % 2 == 1 {
            let sp1 = wrapping(sp, 0xFFFF);
            let link = wrapping(self.registers.get(15), 1);
            match self.store(sp1, link, Stage::JumpLink, &mut writes) {
                Ok(()) => {},
                Err(e) => {
                    return Err(e);
                },
            }
            self.registers.set(13, sp1);
            let target = self.registers.get(r1);
            self.registers.set(15, target);
            assert(writes@ =~= video(sp1, link));
        } else {
            let target = self.registers.get(r1);
            self.registers.set(15, target);
        }
        Ok(writes)
    }

    /// Returns from the interrupt service routine.
    fn return_from_interrupt(&mut self) -> (r: Result<Vec<VideoWrite>, EmuError>)
        ensures
            match r {
                Ok(writes) => old(self)@.return_from_interrupt() == Ok::<
                    (MachineView, Seq<VideoWrite>),
                    EmuError,
                >((final(self)@, writes@)),
                Err(e) => old(self)@.return_from_interrupt() == Err::<
                    (MachineView, Seq<VideoWrite>),
                    EmuError,
                >(e),
            },
    {
        let sp = self.registers.get(13);
        let sp1 = wrapping(sp, 1);
        let sr = match self.fetch(sp, Stage::RtiSr) {
            Ok(sr) => sr,
            Err(e) => {
                return Err(e);
            },
        };
        let target = match self.fetch(sp1, Stage::RtiPc) {
            Ok(target) => target,
            Err(e) => {
                return Err(e);
            },
        };
        self.registers.set(14, sr);
        self.registers.set(13, wrapping(sp, 2));
        self.registers.set(15, target);
        Ok(Vec::new())
    }

    /// Runs the instruction word `inst`.
    pub fn execute(&mut self, inst: u16) -> (r: Result<Vec<VideoWrite>, EmuError>)
        ensures
            match r {
                Ok(writes) => old(self)@.execute(inst) == Ok::<
                    (MachineView, Seq<VideoWrite>),
                    EmuError,
                >((final(self)@, writes@)),
                Err(e) => old(self)@.execute(inst) == Err::<(MachineView, Seq<VideoWrite>), EmuError>(
                    e,
                ),
            },
    {
        let opcode: u16 = inst / 4096;
        let r1: u16 = (inst / 256) % 16;
        let r2: u16 = (inst / 16) % 16;
        let low4: u16 = inst % 16;
        let imm8: u16 = inst % 256;
        let mut writes: Vec<VideoWrite> = Vec::new();
        if opcode == 0 {
            let source = wrapping(self.registers.get(r2), low4);
            let val = match self.fetch(source, Stage::Load) {
                Ok(val) => val,
                Err(e) => {
                    return Err(e);
                },
            };
            self.registers.set(r1, val);
            self.advance();
        } else if opcode == 1 {
            let target = wrapping(self.registers.get(r1), low4);
            let val = self.registers.get(r2);
            match self.store(target, val, Stage::Store, &mut writes) {
                Ok(()) => {},
                Err(e) => {
                    return Err(e);
                },
            }
            self.advance();
            assert(writes@ =~= video(target, val));
        } else if opcode == 2 {
            let val: u16 = if imm8 >= 128 {
                0xFF00 + imm8
            } else {
                imm8
            };
            self.registers.set(r1, val);
            self.advance();
        } else if opcode == 3 {
            let val: u16 = imm8 * 256 + self.registers.get(r1) % 256;
            self.registers.set(r1, val);
            self.advance();
        } else if opcode == 5 {
            let target = wrapping(self.registers.get(r1), 0xFFFF);
            let val = if r2 == r1 {
                target
            } else {
                self.registers.get(r2)
            };
            match self.store(target, val, Stage::Push, &mut writes) {
                Ok(()) => {},
                Err(e) => {
                    return Err(e);
                },
            }
            self.registers.set(r1, target);
            self.advance();
            assert(writes@ =~= video(target, val));
        } else if opcode == 6 {
            let source = self.registers.get(r2);
            let val = match self.fetch(source, Stage::Pop) {
                Ok(val) => val,
                Err(e) => {
                    return Err(e);
                },
            };
            self.registers.set(r1, val);
            let next = wrapping(self.registers.get(r2), 1);
            self.registers.set(r2, next);
            self.advance();
        } else if opcode == 7 {
            self.halt = true;
        } else if opcode == 8 {
            let b = self.registers.get(r2);
            return self.arithmetic(low4, r1, b);
        } else if opcode == 9 {
            return self.arithmetic(low4, r1, r2);
        } else if opcode == 10 {
            return self.jump(r1, r2, low4);
        } else if opcode == 12 {
            return self.return_from_interrupt();
        } else {
            self.advance();
        }
        Ok(writes)
    }

    /// Runs one cycle: with `irq` the entry into the interrupt service
    /// routine, else the instruction at the program counter. Returns the
    /// writes to the display memory that the cycle made, in order.
    pub fn step(&mut self, irq: bool) -> (r: Result<Vec<VideoWrite>, EmuError>)
        ensures
            match r {
                Ok(writes) => old(self)@.step(irq) == Ok::<(MachineView, Seq<VideoWrite>), EmuError>(
                    (final(self)@, writes@),
                ),
                Err(e) => old(self)@.step(irq) == Err::<(MachineView, Seq<VideoWrite>), EmuError>(e),
            },
    {
        if irq {
            return self.interrupt();
        }
        let pc = self.registers.get(15);
        let inst = match self.fetch(pc, Stage::Fetch) {
            Ok(inst) => inst,
            Err(e) => {
                return Err(e);
            },
        };
        self.execute(inst)
    }

    /// Runs one cycle with the keyboard `keyboard`: the machine sees the scan
    /// code of the key pressed last, and an interrupt request of the keyboard
    /// is taken and served in this cycle.
    pub fn cycle(&mut self, keyboard: &mut Key) -> (r: Result<Vec<VideoWrite>, EmuError>)
        ensures
            *final(keyboard) == (Key { irq: false, key: old(keyboard).key }),
            match r {
                Ok(writes) => old(self)@.with_key(old(keyboard).key).step(old(keyboard).irq) == Ok::<
                    (MachineView, Seq<VideoWrite>),
                    EmuError,
                >((final(self)@, writes@)),
                Err(e) => old(self)@.with_key(old(keyboard).key).step(old(keyboard).irq) == Err::<
                    (MachineView, Seq<VideoWrite>),
                    EmuError,
                >(e),
            },
    {
        self.devices.key = keyboard.key;
        let irq = keyboard.take_request();
        self.step(irq)
    }

    /// Runs the machine without interrupts until it has halted or `budget`
    /// cycles have been run, and returns the number of cycles run.
    pub fn run(&mut self, budget: u64) -> (r: Result<u64, EmuError>)
        ensures
            match r {
                Ok(cycles) => old(self)@.run(budget as nat) == Ok::<(MachineView, nat), EmuError>(
                    (final(self)@, cycles as nat),
                ),
                Err(e) => old(self)@.run(budget as nat) == Err::<(MachineView, nat), EmuError>(e),
            },
    {
        let mut cycles: u64 = 0;
        while cycles < budget && !self.halt
            invariant
                cycles <= budget,
                match self@.run((budget - cycles) as nat) {
                    Ok((last, rest)) => old(self)@.run(budget as nat) == Ok::<
                        (MachineView, nat),
                        EmuError,
                    >((last, (rest + cycles) as nat)),
                    Err(e) => old(self)@.run(budget as nat) == Err::<(MachineView, nat), EmuError>(
                        e,
                    ),
                },
            decreases budget - cycles,
        {
            match self.step(false) {
                Ok(_) => {},
                Err(e) => {
                    return Err(e);
                },
            }
            cycles += 1;
        }
        Ok(cycles)
    }
}


/// A return from the interrupt service routine undoes the entry into it:
/// with the stack in the data memory, a machine that enters the routine and
/// returns at once has all its registers as they were, the program counter
/// and the status register among them.
pub proof fn interrupt_returns(m: MachineView)
    requires
        m.regs.len() == 16,
        m.interrupt() is Ok,
        wrap(m.sp() - 1) >= 0x8000,
        wrap(m.sp() - 2) >= 0x8000,
    ensures
        ({
            let entered = m.interrupt()->Ok_0.0;
            &&& entered.pc() == m.regs[12]
            &&& entered.return_from_interrupt() is Ok
            &&& entered.return_from_interrupt()->Ok_0.0.regs == m.regs
        }),
{
    let sp1 = wrap(m.sp() - 1);
    let sp2 = wrap(m.sp() - 2);
    let mem1 = m.mem.write(sp1, m.pc())->0;
    let mem2 = mem1.write(sp2, m.sr())->0;
    let entered = m.interrupt()->Ok_0.0;
    assert(entered.sp() == sp2);
    assert(wrap(sp2 + 1) == sp1);
    assert(wrap(sp2 + 2) == m.sp());
    assert(sp1 != sp2);
    assert(mem2.read(sp2) == Some(m.sr()));
    assert(mem2.read(sp1) == Some(m.pc()));
    let back = entered.return_from_interrupt()->Ok_0.0;
    assert(back.regs =~= m.regs);
}

} // verus!
