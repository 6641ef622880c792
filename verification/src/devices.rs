//! The memory map of the machine: program memory and display memory in the
//! low half, data memory above them, and the keyboard register at the top.

use vstd::prelude::*;

verus! {

/// The first address of the data memory.
pub const RAM_BASE: u16 = 0x8000;

/// The last address of the data memory.
pub const RAM_LAST: u16 = 0xBFFF;

/// The address of the keyboard register.
pub const KEY_ADDRESS: u16 = 0xFFFF;

/// An access to an address at which the machine has nothing.
#[derive(Debug, Clone, Copy, PartialEq, Eq, Structural)]
pub struct MemoryFault {
    pub addr: u16,
}

/// The devices behind the addresses. Reads of the low half go to the program
/// memory, writes of the low half to the display memory.
#[derive(Debug)]
pub struct Devices {
    pub rom: Vec<u16>,
    pub vram: Vec<u16>,
    pub ram: Vec<u16>,
    /// The scan code of the key pressed last.
    pub key: u16,
}

/// The mathematical value of the devices.
pub struct DevicesView {
    pub rom: Seq<u16>,
    pub vram: Seq<u16>,
    pub ram: Seq<u16>,
    pub key: u16,
}

impl DevicesView {
    /// The word at `addr`, or `None` where nothing can be read there.
    pub open spec fn read(self, addr: u16) -> Option<u16> {
        if addr < 0x8000 {
            if addr < self.rom.len() {
                Some(self.rom[addr as int])
            } else {
                None
            }
        } else if addr <= 0xBFFF {
            if addr - 0x8000 < self.ram.len() {
                Some(self.ram[addr - 0x8000])
            } else {
                None
            }
        } else if addr == 0xFFFF {
            Some(self.key)
        } else {
            None
        }
    }

    /// The devices after `val` was written to `addr`, or `None` where nothing can be written there.
    pub open spec fn write(self, addr: u16, val: u16) -> Option<DevicesView> {
        if addr < 0x8000 {
            if addr < self.vram.len() {
                Some(DevicesView { vram: self.vram.update(addr as int, val), ..self })
            } else {
                None
            }
        } else if addr <= 0xBFFF {
            if addr - 0x8000 < self.ram.len() {
                Some(DevicesView { ram: self.ram.update(addr - 0x8000, val), ..self })
            } else {
                None
            }
        } else {
            None
        }
    }
}

impl View for Devices {
    type V = DevicesView;

    open spec fn view(&self) -> DevicesView {
        DevicesView { rom: self.rom@, vram: self.vram@, ram: self.ram@, key: self.key }
    }
}

impl Devices {
    pub fn new(rom: Vec<u16>, vram: Vec<u16>, ram: Vec<u16>, key: u16) -> (d: Devices)
        ensures
            d@ == (DevicesView { rom: rom@, vram: vram@, ram: ram@, key }),
    {
        Devices { rom, vram, ram, key }
    }

    /// Reads the word at `addr`.
    pub fn read(&self, addr: u16) -> (r: Result<u16, MemoryFault>)
        ensures
            match r {
                Ok(val) => self@.read(addr) == Some(val),
                Err(fault) => self@.read(addr) is None && fault.addr == addr,
            },
    {
        if addr < 0x8000 {
            if (addr as usize) < self.rom.len() {
                Ok(self.rom[addr as usize])
            } else {
                Err(MemoryFault { addr })
            }
        } else if addr <= 0xBFFF {
            if ((addr - 0x8000) as usize) < self.ram.len() {
                Ok(self.ram[(addr - 0x8000) as usize])
            } else {
                Err(MemoryFault { addr })
            }
        } else if addr == 0xFFFF {
            Ok(self.key)
        } else {
            Err(MemoryFault { addr })
        }
    }

    /// Writes `val` to `addr`. Where that fails nothing changes.
    pub fn write(&mut self, addr: u16, val: u16) -> (r: Result<(), MemoryFault>)
        ensures
            match r {
                Ok(()) => old(self)@.write(addr, val) == Some(final(self)@),
                Err(fault) => old(self)@.write(addr, val) is None && fault.addr == addr && *final(self) == *old(self),
            },
    {
        if addr < 0x8000 {
            if (addr as usize) < self.vram.len() {
                self.vram[addr as usize] = val;
                Ok(())
            } else {
                Err(MemoryFault { addr })
            }
        } else if addr <= 0xBFFF {
            if ((addr - 0x8000) as usize) < self.ram.len() {
                self.ram[(addr - 0x8000) as usize] = val;
                Ok(())
            } else {
                Err(MemoryFault { addr })
            }
        } else {
            Err(MemoryFault { addr })
        }
    }
}

} // verus!
