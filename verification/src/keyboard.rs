//! The keyboard: which key presses reach the machine, and as what.

use vstd::prelude::*;

verus! {

/// The scan code of the key `Enter`.
pub const ENTER_CODE: u16 = 0x005A;

/// The scan code of the letter with the index `i` in the alphabet.
pub open spec fn scan_code(i: int) -> u16 {
    seq![
        0x001Cu16,
        0x0032,
        0x0021,
        0x0023,
        0x0024,
        0x002B,
        0x0034,
        0x0033,
        0x0043,
        0x003B,
        0x0042,
        0x004B,
        0x003A,
        0x0031,
        0x0044,
        0x004D,
        0x0015,
        0x002D,
        0x001B,
        0x002C,
        0x003C,
        0x002A,
        0x001D,
        0x0022,
        0x0035,
        0x001A,
    ][i]
}

/// A key press as the terminal reports it.
#[derive(Debug, Clone, Copy, PartialEq, Eq, Structural)]
pub enum KeyPress {
    /// A character without modifiers.
    Char(char),
    /// The key `Enter` without modifiers.
    Enter,
    /// The letter `c` with the control key.
    Interrupt,
    /// Anything else.
    Other,
}

/// What the emulator does after a key press.
#[derive(Debug, Clone, Copy, PartialEq, Eq, Structural)]
pub enum KeyAction {
    /// It goes on.
    Continue,
    /// It restores the terminal and ends.
    Exit,
}

/// The keyboard as the machine sees it: the interrupt request and the scan
/// code of the key pressed last.
#[derive(Debug, Clone, Copy, PartialEq, Eq, Structural)]
pub struct Key {
    pub irq: bool,
    pub key: u16,
}

impl Key {
    /// The scan code of the lower-case letter `c`.
    pub fn convert_to_scan_code(&self, c: u8) -> (code: u16)
        requires
            97 <= c <= 122,
        ensures
            code == scan_code(c - 97),
    {
        let codes: [u16; 26] = [
            0x001C,
            0x0032,
            0x0021,
            0x0023,
            0x0024,
            0x002B,
            0x0034,
            0x0033,
            0x0043,
            0x003B,
            0x0042,
            0x004B,
            0x003A,
            0x0031,
            0x0044,
            0x004D,
            0x0015,
            0x002D,
            0x001B,
            0x002C,
            0x003C,
            0x002A,
            0x001D,
            0x0022,
            0x0035,
            0x001A,
        ];
        codes[(c - 97) as usize]
    }

    /// A keyboard on which no key was pressed.
    pub fn new() -> (k: Key)
        ensures
            k == (Key { irq: false, key: 0 }),
    {
        Key { irq: false, key: 0 }
    }

    /// Requests an interrupt for the scan code `code`. A request that was
    /// not served yet is lost: its scan code is overwritten.
    pub fn irq(&mut self, code: u16)
        ensures
            *final(self) == (Key { irq: true, key: code }),
    {
        self.irq = true;
        self.key = code;
    }

    /// Takes the interrupt request: says whether there is one, and clears it.
    pub fn take_request(&mut self) -> (requested: bool)
        ensures
            requested == old(self).irq,
            *final(self) == (Key { irq: false, key: old(self).key }),
    {
        let requested = self.irq;
        self.irq = false;
        requested
    }

    /// What the keyboard is after the key press, and what the emulator does.
    pub open spec fn after(self, event: KeyPress) -> (Key, KeyAction) {
        match event {
            KeyPress::Char(c) => if 'a' <= c <= 'z' {
                (Key { irq: true, key: scan_code(c as int - 97) }, KeyAction::Continue)
            } else {
                (self, KeyAction::Continue)
            },
            KeyPress::Enter => (Key { irq: true, key: ENTER_CODE }, KeyAction::Continue),
            KeyPress::Interrupt => (self, KeyAction::Exit),
            KeyPress::Other => (self, KeyAction::Continue),
        }
    }

    /// Handles a key press: a lower-case letter and `Enter` request an
    /// interrupt with their scan code, control and `c` ends the emulator, and
    /// anything else is ignored.
    pub fn handle(&mut self, event: KeyPress) -> (action: KeyAction)
        ensures
            (*final(self), action) == old(self).after(event),
    {
        match event {
            KeyPress::Char(c) => {
                if 'a' <= c && c <= 'z' {
                    let code = self.convert_to_scan_code(c as u8);
                    self.irq(code);
                }
                KeyAction::Continue
            },
            KeyPress::Enter => {
                self.irq(ENTER_CODE);
                KeyAction::Continue
            },
            KeyPress::Interrupt => KeyAction::Exit,
            KeyPress::Other => KeyAction::Continue,
        }
    }
}

} // verus!
