//! The display: what a word of the display memory shows, and when the
//! counters of instructions and frames are reported.

use crate::text::{digit, digit_char};
use vstd::prelude::*;
use vstd::string::StringExecFns;

verus! {

/// What a word of the display memory shows: a character in one of eight
/// colours on a background of one of eight colours.
#[derive(Debug, Clone, Copy, PartialEq, Eq, Structural)]
pub struct Cell {
    pub ch: char,
    /// The colour of the character: bits 11 to 13 of the word.
    pub fg: u8,
    /// The colour of the background: bits 8 to 10 of the word.
    pub bg: u8,
}

/// The character that the code `val` shows: itself where it is printable, a blank else.
pub open spec fn shown_char(val: u16) -> char {
    if 0x20 <= val <= 0x7E {
        val as char
    } else {
        ' '
    }
}

/// What the word `val` shows.
pub open spec fn shown(val: u16) -> Cell {
    Cell {
        ch: shown_char(val % 256),
        fg: ((val / 2048) % 8) as u8,
        bg: ((val / 256) % 8) as u8,
    }
}

/// The counters of a run of the display.
#[derive(Debug, Clone, Copy, PartialEq, Eq, Structural)]
pub struct Vga {
    pub width: usize,
    pub height: usize,
    /// The time between two reports, in nanoseconds.
    pub interval: u64,
    /// The time of the last report, in nanoseconds.
    pub prev_time: u64,
    /// The frames drawn since the last report.
    pub running_frame_count: u64,
}

/// The counters since the last report.
#[derive(Debug, Clone, Copy, PartialEq, Eq, Structural)]
pub struct Report {
    /// The number of events counted.
    pub count: u64,
    /// The time that has passed, in nanoseconds.
    pub elapsed: u64,
}

impl Vga {
    pub fn new(width: usize, height: usize, interval: u64, now: u64) -> (vga: Vga)
        ensures
            vga == (Vga { width, height, interval, prev_time: now, running_frame_count: 0 }),
    {
        Vga { width, height, interval, prev_time: now, running_frame_count: 0 }
    }

    /// The character that the code `val` shows.
    pub fn char_of(val: u16) -> (c: char)
        ensures
            c == shown_char(val),
    {
        if 0x20 <= val && val <= 0x7E {
            val as u8 as char
        } else {
            ' '
        }
    }

    /// What the word `val` of the display memory shows.
    pub fn cell_of(val: u16) -> (cell: Cell)
        ensures
            cell == shown(val),
    {
        Cell {
            ch: Self::char_of(val % 256),
            fg: ((val / 2048) % 8) as u8,
            bg: ((val / 256) % 8) as u8,
        }
    }

    /// The counters after a frame drawn at the time `now`, and the report
    /// that is due: one is due once the interval has passed since the last.
    pub open spec fn after_frame(self, now: u64) -> (Vga, Option<Report>) {
        let frames = if self.running_frame_count < u64::MAX {
            (self.running_frame_count + 1) as u64
        } else {
            self.running_frame_count
        };
        if now >= self.prev_time && now - self.prev_time >= self.interval {
            (
                Vga { prev_time: now, running_frame_count: 0, ..self },
                Some(Report { count: frames, elapsed: (now - self.prev_time) as u64 }),
            )
        } else {
            (Vga { running_frame_count: frames, ..self }, None)
        }
    }

    /// Counts a frame drawn at the time `now`, and returns the report that is due.
    pub fn frame_drawn(&mut self, now: u64) -> (report: Option<Report>)
        ensures
            (*final(self), report) == old(self).after_frame(now),
    {
        if self.running_frame_count < u64::MAX {
            self.running_frame_count = self.running_frame_count + 1;
        }
        if now >= self.prev_time && now - self.prev_time >= self.interval {
            let report = Report { count: self.running_frame_count, elapsed: now - self.prev_time };
            self.prev_time = now;
            self.running_frame_count = 0;
            Some(report)
        } else {
            None
        }
    }
}

/// The counter of the instructions run.
#[derive(Debug, Clone, Copy, PartialEq, Eq, Structural)]
pub struct Diagnostics {
    /// The time between two reports, in nanoseconds.
    pub interval: u64,
    /// The time of the last report, in nanoseconds.
    pub prev_time: u64,
    /// The instructions run since the last report.
    pub running_count: u64,
}

/// The text of the line that reports a halt at `pc`.
pub open spec fn halt_text(pc: u16) -> Seq<char> {
    "Halted at "@ + seq![
        digit_char((pc as int / 4096) % 16),
        digit_char((pc as int / 256) % 16),
        digit_char((pc as int / 16) % 16),
        digit_char(pc as int % 16),
    ]
}

impl Diagnostics {
    pub fn new(interval: u64, now: u64) -> (d: Diagnostics)
        ensures
            d == (Diagnostics { interval, prev_time: now, running_count: 0 }),
    {
        Diagnostics { interval, prev_time: now, running_count: 0 }
    }

    /// The counter after an instruction run at the time `now`, and the
    /// report that is due: one is due once the interval has passed since the last.
    pub open spec fn after_instruction(self, now: u64) -> (Diagnostics, Option<Report>) {
        let count = if self.running_count < u64::MAX {
            (self.running_count + 1) as u64
        } else {
            self.running_count
        };
        if now >= self.prev_time && now - self.prev_time >= self.interval {
            (
                Diagnostics { prev_time: now, running_count: 0, ..self },
                Some(Report { count, elapsed: (now - self.prev_time) as u64 }),
            )
        } else {
            (Diagnostics { running_count: count, ..self }, None)
        }
    }

    /// Counts an instruction run at the time `now`, and returns the report that is due.
    pub fn increment(&mut self, now: u64) -> (report: Option<Report>)
        ensures
            (*final(self), report) == old(self).after_instruction(now),
    {
        if self.running_count < u64::MAX {
            self.running_count = self.running_count + 1;
        }
        if now >= self.prev_time && now - self.prev_time >= self.interval {
            let report = Report { count: self.running_count, elapsed: now - self.prev_time };
            self.prev_time = now;
            self.running_count = 0;
            Some(report)
        } else {
            None
        }
    }

    /// The line that reports a halt at `pc`.
    pub fn halt(&self, pc: u16) -> (line: String)
        ensures
            line@ == halt_text(pc),
    {
        let mut line = String::from_str("Halted at ");
        line.push(digit(((pc / 4096) % 16) as u8));
        line.push(digit(((pc / 256) % 16) as u8));
        line.push(digit(((pc / 16) % 16) as u8));
        line.push(digit((pc % 16) as u8));
        assert(line@ =~= halt_text(pc));
        line
    }
}

} // verus!
