use toast::devices::{Devices, MemoryFault};
use toast::emulator::{alu, bit, EmuError, Machine, Stage, VideoWrite};
use toast::hardware::{Registers, StatusRegister, StatusRegisterFlag};
use toast::keyboard::{Key, KeyAction, KeyPress};

fn flags(sr: &StatusRegister) -> (bool, bool, bool, bool, bool) {
    (
        sr.get(StatusRegisterFlag::X),
        sr.get(StatusRegisterFlag::Z),
        sr.get(StatusRegisterFlag::N),
        sr.get(StatusRegisterFlag::C),
        sr.get(StatusRegisterFlag::V),
    )
}

#[test]
fn add_of_largest_positive_and_one_overflows_without_carry() {
    let mut sr = StatusRegister { sr: 0 };
    let value = alu(0x4, 0x7FFF, 0x0001, &mut sr);
    assert_eq!(value, 0x8000);
    assert!(sr.get(StatusRegisterFlag::V));
    assert!(!sr.get(StatusRegisterFlag::C));
    assert!(sr.get(StatusRegisterFlag::N));
    assert!(!sr.get(StatusRegisterFlag::Z));
}

#[test]
fn sub_of_one_from_zero_borrows() {
    let mut sr = StatusRegister { sr: 0 };
    let value = alu(0x5, 0x0000, 0x0001, &mut sr);
    assert_eq!(value, 0xFFFF);
    assert!(sr.get(StatusRegisterFlag::C));
    assert!(sr.get(StatusRegisterFlag::N));
    assert!(!sr.get(StatusRegisterFlag::Z));
    assert!(sr.get(StatusRegisterFlag::X));
    assert!(!sr.get(StatusRegisterFlag::V));
}

#[test]
fn add_that_wraps_to_zero_sets_zero_and_carry() {
    let mut sr = StatusRegister { sr: 0 };
    assert_eq!(alu(0x4, 0xFFFF, 0x0001, &mut sr), 0);
    assert_eq!(flags(&sr), (false, true, false, true, false));
}

#[test]
fn logic_operations_leave_carry_and_overflow() {
    let mut sr = StatusRegister { sr: 0x0018 };
    assert_eq!(alu(0x0, 0x00FF, 0, &mut sr), 0xFF00);
    assert_eq!(flags(&sr), (false, false, true, true, true));
    assert_eq!(alu(0x1, 0x0F0F, 0x00FF, &mut sr), 0x000F);
    assert_eq!(alu(0x2, 0x0F00, 0x00F0, &mut sr), 0x0FF0);
    assert_eq!(alu(0x3, 0x0FF0, 0x00FF, &mut sr), 0x0F0F);
    assert_eq!(alu(0x6, 0x1234, 0x5678, &mut sr), 0x5678);
    assert_eq!(flags(&sr), (false, false, false, true, true));
    assert_eq!(alu(0x0, 0x0000, 0, &mut sr), 0xFFFF);
    assert!(sr.get(StatusRegisterFlag::X));
}

#[test]
fn shifts() {
    let mut sr = StatusRegister { sr: 0 };
    assert_eq!(alu(0x8, 0x8000, 15, &mut sr), 0x0001);
    assert_eq!(alu(0x8, 0x8000, 16, &mut sr), 0x0000);
    assert_eq!(alu(0x9, 0x8000, 15, &mut sr), 0xFFFF);
    assert_eq!(alu(0x9, 0x8000, 3, &mut sr), 0xF000);
    assert_eq!(alu(0x9, 0x4000, 3, &mut sr), 0x0800);
    assert_eq!(alu(0xA, 0x0001, 15, &mut sr), 0x8000);
    assert_eq!(alu(0xA, 0x0003, 15, &mut sr), 0x8000);
    assert_eq!(alu(0xA, 0x0001, 16, &mut sr), 0x0000);
}

#[test]
fn compare_sets_flags_only() {
    let mut m = Machine::new(vec![0x8017, 0x7000]);
    m.registers.set(0, 5);
    m.registers.set(1, 5);
    assert_eq!(m.run(10), Ok(2));
    assert_eq!(m.registers.get(0), 5);
    assert!(m.registers.sr.get(StatusRegisterFlag::Z));
}

#[test]
fn bit_reads_one_bit() {
    assert!(bit(0x8000, 15));
    assert!(!bit(0x8000, 14));
    assert!(bit(0x0001, 0));
}

#[test]
fn status_register_set_and_get() {
    let mut sr = StatusRegister { sr: 0 };
    sr.set(StatusRegisterFlag::C, true);
    assert_eq!(sr.sr, 0x0008);
    sr.set(StatusRegisterFlag::X, true);
    assert_eq!(sr.sr, 0x0009);
    sr.set(StatusRegisterFlag::C, false);
    assert_eq!(sr.sr, 0x0001);
    assert_eq!(StatusRegisterFlag::V.mask(), 0x0010);
    assert_eq!(StatusRegisterFlag::N.mask(), 0x0004);
    assert_eq!(StatusRegisterFlag::Z.mask(), 0x0002);
}

#[test]
fn registers_are_addressed_by_index() {
    let mut r = Registers::new();
    assert_eq!(r.get(13), 0xBFFF);
    r.set(3, 7);
    r.set(12, 0x0100);
    r.set(14, 0x001F);
    r.set(15, 0x0042);
    assert_eq!(r.general[3], 7);
    assert_eq!(r.isr, 0x0100);
    assert_eq!(r.sr.sr, 0x001F);
    assert_eq!(r.pc, 0x0042);
    assert_eq!(r.get(15), 0x0042);
}

#[test]
fn memory_map() {
    let mut d = Devices::new(vec![1, 2, 3], vec![0; 6000], vec![0; 0x4000], 0x1C);
    assert_eq!(d.read(0), Ok(1));
    assert_eq!(d.read(2), Ok(3));
    assert_eq!(d.read(3), Err(MemoryFault { addr: 3 }));
    assert_eq!(d.read(0xFFFF), Ok(0x1C));
    assert_eq!(d.read(0xC000), Err(MemoryFault { addr: 0xC000 }));
    assert_eq!(d.read(0xFFFE), Err(MemoryFault { addr: 0xFFFE }));
    assert_eq!(d.write(0x8000, 9), Ok(()));
    assert_eq!(d.read(0x8000), Ok(9));
    assert_eq!(d.write(0xBFFF, 8), Ok(()));
    assert_eq!(d.read(0xBFFF), Ok(8));
    assert_eq!(d.write(5999, 0x0741), Ok(()));
    assert_eq!(d.vram[5999], 0x0741);
    assert_eq!(d.write(6000, 1), Err(MemoryFault { addr: 6000 }));
    assert_eq!(d.write(0xFFFF, 1), Err(MemoryFault { addr: 0xFFFF }));
    assert_eq!(d.read(5999), Err(MemoryFault { addr: 5999 }));
}

#[test]
fn imov_then_halt() {
    let mut m = Machine::new(vec![0x2005, 0x7000]);
    assert_eq!(m.run(100), Ok(2));
    assert_eq!(m.registers.get(0), 5);
    assert!(m.halt);
    assert_eq!(m.registers.pc, 1);
}

#[test]
fn imov_extends_the_sign_and_imoh_sets_the_high_byte() {
    let mut m = Machine::new(vec![0x21FF, 0x2234, 0x3212, 0x7000]);
    assert_eq!(m.run(100), Ok(4));
    assert_eq!(m.registers.get(1), 0xFFFF);
    assert_eq!(m.registers.get(2), 0x1234);
}

#[test]
fn push_and_pop_use_the_register_as_stack_pointer() {
    // imov r0 7; push sp r0; pop r1 sp; halt
    let mut m = Machine::new(vec![0x2007, 0x5D00, 0x61D0, 0x7000]);
    assert_eq!(m.step(false), Ok(vec![]));
    assert_eq!(m.step(false), Ok(vec![]));
    assert_eq!(m.registers.sp, 0xBFFE);
    assert_eq!(m.devices.read(0xBFFE), Ok(7));
    assert_eq!(m.step(false), Ok(vec![]));
    assert_eq!(m.registers.get(1), 7);
    assert_eq!(m.registers.sp, 0xBFFF);
}

#[test]
fn store_to_the_display_is_reported() {
    // imov r0 0; imov r1 0x41; str r0 r1 (offset 2); halt
    let mut m = Machine::new(vec![0x2000, 0x2141, 0x1012, 0x7000]);
    m.step(false).unwrap();
    m.step(false).unwrap();
    assert_eq!(m.step(false), Ok(vec![VideoWrite { addr: 2, val: 0x41 }]));
    assert_eq!(m.devices.vram[2], 0x41);
}

#[test]
fn jump_and_link_and_return() {
    // 0: imov r0 4; 1: jmpl r0; 2: halt; 3: halt; 4: imov r1 9; 5: jmpr
    let mut m = Machine::new(vec![0x2004, 0xA010, 0x7000, 0x7000, 0x2109, 0xA020]);
    assert_eq!(m.run(100), Ok(5));
    assert_eq!(m.registers.get(1), 9);
    assert_eq!(m.registers.pc, 2);
    assert_eq!(m.registers.sp, 0xBFFF);
}

#[test]
fn conditional_jump_follows_the_zero_flag() {
    // 0: imov r0 0; 1: imov r2 5; 2: iadd r0 0 (sets Z); 3: jz r2; 4: halt; 5: imov r3 1; 6: halt
    let mut m = Machine::new(vec![0x2000, 0x2205, 0x9004, 0xA201, 0x7000, 0x2301, 0x7000]);
    assert_eq!(m.run(100), Ok(6));
    assert_eq!(m.registers.get(3), 1);
    assert_eq!(m.registers.pc, 6);
}

#[test]
fn interrupt_saves_pc_and_status_and_rti_restores_them() {
    // isr at 3: rti
    let mut m = Machine::new(vec![0x2005, 0x2106, 0x7000, 0xC000]);
    m.registers.isr = 3;
    m.step(false).unwrap();
    m.registers.sr.sr = 0x0005;
    assert_eq!(m.step(true), Ok(vec![]));
    assert_eq!(m.registers.pc, 3);
    assert_eq!(m.registers.sp, 0xBFFD);
    assert_eq!(m.devices.read(0xBFFE), Ok(1));
    assert_eq!(m.devices.read(0xBFFD), Ok(5));
    m.registers.sr.sr = 0;
    m.step(false).unwrap();
    assert_eq!(m.registers.pc, 1);
    assert_eq!(m.registers.sr.sr, 5);
    assert_eq!(m.registers.sp, 0xBFFF);
    assert_eq!(m.run(10), Ok(2));
    assert_eq!(m.registers.get(1), 6);
}

#[test]
fn unknown_operation_does_nothing() {
    let mut m = Machine::new(vec![0x4123, 0xB000, 0x7000]);
    assert_eq!(m.run(10), Ok(3));
    assert_eq!(m.registers.pc, 2);
    assert_eq!(m.registers.general, [0; 12]);
}

#[test]
fn faults_name_the_stage_and_the_address() {
    let mut m = Machine::new(vec![0x2000]);
    m.step(false).unwrap();
    assert_eq!(m.step(false), Err(EmuError { pc: 1, stage: Stage::Fetch, addr: 1 }));
    // load r0 from r1 + 0 with r1 = 0xC000
    let mut m = Machine::new(vec![0x0010]);
    m.registers.set(1, 0xC000);
    assert_eq!(m.step(false), Err(EmuError { pc: 0, stage: Stage::Load, addr: 0xC000 }));
    // an operation that the arithmetic unit does not have
    let mut m = Machine::new(vec![0x800B]);
    assert_eq!(m.step(false), Err(EmuError { pc: 0, stage: Stage::Alu, addr: 0xB }));
    // an interrupt with the stack pointer outside of memory
    let mut m = Machine::new(vec![0x7000]);
    m.registers.sp = 0xC001;
    assert_eq!(m.step(true), Err(EmuError { pc: 0, stage: Stage::InterruptPc, addr: 0xC000 }));
}

#[test]
fn run_stops_when_the_budget_is_used_up() {
    // 0: imov r0 0; 1: jmp r0
    let mut m = Machine::new(vec![0x2000, 0xA000]);
    assert_eq!(m.run(7), Ok(7));
    assert!(!m.halt);
}

#[test]
fn every_access_to_memory_can_fault() {
    let fault = |rom: Vec<u16>, set: &[(u16, u16)], irq: bool| {
        let mut m = Machine::new(rom);
        for (index, val) in set {
            m.registers.set(*index, *val);
        }
        m.step(irq).unwrap_err()
    };
    // str r1 r0 with r1 = 0xC000
    assert_eq!(fault(vec![0x1100], &[(1, 0xC000)], false), EmuError { pc: 0, stage: Stage::Store, addr: 0xC000 });
    // push r1 r0 with r1 = 0xC001
    assert_eq!(fault(vec![0x5100], &[(1, 0xC001)], false), EmuError { pc: 0, stage: Stage::Push, addr: 0xC000 });
    // pop r0 r1 with r1 = 0xC000
    assert_eq!(fault(vec![0x6010], &[(1, 0xC000)], false), EmuError { pc: 0, stage: Stage::Pop, addr: 0xC000 });
    // jmpr with sp = 0xC000
    assert_eq!(fault(vec![0xA020], &[(13, 0xC000)], false), EmuError { pc: 0, stage: Stage::Jump, addr: 0xC000 });
    // jmpl r0 with sp = 0xC001
    assert_eq!(fault(vec![0xA010], &[(13, 0xC001)], false), EmuError { pc: 0, stage: Stage::JumpLink, addr: 0xC000 });
    // rti with sp = 0xC000, and with sp = 0xBFFF
    assert_eq!(fault(vec![0xC000], &[(13, 0xC000)], false), EmuError { pc: 0, stage: Stage::RtiSr, addr: 0xC000 });
    assert_eq!(fault(vec![0xC000], &[(13, 0xBFFF)], false), EmuError { pc: 0, stage: Stage::RtiPc, addr: 0xC000 });
    // an interrupt with sp = 0x8000: the program counter fits, the status register does not
    assert_eq!(fault(vec![0x7000], &[(13, 0x8001)], true), EmuError { pc: 0, stage: Stage::InterruptSr, addr: 0x7FFF });
}

#[test]
fn arithmetic_wraps_around() {
    // 0: imov r0 -1; 1: iadd r0 1; 2: load r1 r0+3 (address 3); 3: halt
    let mut m = Machine::new(vec![0x20FF, 0x9014, 0x0103, 0x7000]);
    assert_eq!(m.run(10), Ok(4));
    assert_eq!(m.registers.get(0), 0);
    assert_eq!(m.registers.get(1), 0x7000);
    assert!(m.registers.sr.get(StatusRegisterFlag::C));
    assert!(m.registers.sr.get(StatusRegisterFlag::Z));
    // the program counter wraps from the keyboard register to address zero
    let mut m = Machine::new(vec![0x7000]);
    m.registers.pc = 0xFFFF;
    m.devices.key = 0x2105;
    m.step(false).unwrap();
    assert_eq!(m.registers.pc, 0);
    assert_eq!(m.registers.get(1), 5);
}

#[test]
fn a_second_key_press_overwrites_the_first() {
    let mut keyboard = Key::new();
    assert_eq!(keyboard.handle(KeyPress::Char('a')), KeyAction::Continue);
    assert_eq!(keyboard.handle(KeyPress::Char('b')), KeyAction::Continue);
    // 0: halt; the isr at 2 loads the keyboard register: imov r1 -1; load r0 r1; halt
    let mut m = Machine::new(vec![0x7000, 0x7000, 0x21FF, 0x0010, 0x7000]);
    m.registers.isr = 2;
    assert_eq!(m.cycle(&mut keyboard), Ok(vec![]));
    assert_eq!(keyboard, Key { irq: false, key: 0x0032 });
    assert_eq!(m.registers.pc, 2);
    assert_eq!(m.cycle(&mut keyboard), Ok(vec![]));
    assert_eq!(m.cycle(&mut keyboard), Ok(vec![]));
    assert_eq!(m.registers.get(0), 0x0032);
    assert_eq!(m.registers.sp, 0xBFFD);
    assert!(!keyboard.take_request());
}
