//! Memory images: the text form of the program memory.

use crate::hardware::ROM_SIZE;
use crate::text::{chars_of, digit_of, digit_value};
use vstd::prelude::*;

verus! {

/// The word that fills the program memory where the image says nothing: a halt.
pub const FILL: u16 = 0x7000;

/// A line of an image names an address outside of the program memory.
#[derive(Debug, Clone, Copy, PartialEq, Eq, Structural)]
pub struct ImageError {
    pub addr: u16,
}

/// The value of the hexadecimal digit, or `None` for any other character.
pub open spec fn hex_value(c: char) -> Option<int> {
    match digit_value(c) {
        Some(d) => if d < 16 {
            Some(d)
        } else {
            None
        },
        None => None,
    }
}

/// The number that the four characters from `at` on write in base sixteen,
/// or `None` where one of them is no hexadecimal digit.
pub open spec fn hex4(s: Seq<char>, at: int) -> Option<int> {
    if at < 0 || at + 4 > s.len() {
        None
    } else {
        match (hex_value(s[at]), hex_value(s[at + 1]), hex_value(s[at + 2]), hex_value(s[at + 3])) {
            (Some(a), Some(b), Some(c), Some(d)) => Some(a * 4096 + b * 256 + c * 16 + d),
            _ => None,
        }
    }
}

/// The address and the word that a line of an image gives: four hexadecimal
/// digits, ` : `, four hexadecimal digits and `;` at the start of the line.
/// `None` for any other line.
pub open spec fn line_entry(line: Seq<char>) -> Option<(int, int)> {
    if line.len() >= 12 && line[4] == ' ' && line[5] == ':' && line[6] == ' ' && line[11] == ';' {
        match (hex4(line, 0), hex4(line, 7)) {
            (Some(addr), Some(val)) => Some((addr, val)),
            _ => None,
        }
    } else {
        None
    }
}

/// The index of the first line break at or after `from`, or the length of the text.
pub open spec fn line_end(s: Seq<char>, from: int) -> int
    decreases s.len() - from,
{
    if from < 0 || from >= s.len() {
        s.len() as int
    } else if s[from] == '\n' {
        from
    } else {
        line_end(s, from + 1)
    }
}

/// The memory after the lines of `s` from index `from` on were applied to
/// `rom`, one after the other: a line that gives an address and a word sets
/// the word at the address, and any other line is passed over. Fails at the
/// first line that gives an address outside of the memory.
pub open spec fn image_from(s: Seq<char>, from: int, rom: Seq<u16>) -> Result<Seq<u16>, ImageError>
    decreases s.len() + 1 - from,
{
    if from < 0 || from >= s.len() {
        Ok(rom)
    } else {
        let end = line_end(s, from);
        proof {
            lemma_line_end(s, from);
        }
        match line_entry(s.subrange(from, end)) {
            None => image_from(s, end + 1, rom),
            Some((addr, val)) => if addr < rom.len() {
                image_from(s, end + 1, rom.update(addr, val as u16))
            } else {
                Err(ImageError { addr: addr as u16 })
            },
        }
    }
}

/// The end of a line lies at or behind its start, and within the text.
pub proof fn lemma_line_end(s: Seq<char>, from: int)
    requires
        0 <= from <= s.len(),
    ensures
        from <= line_end(s, from) <= s.len(),
        line_end(s, from) < s.len() ==> s[line_end(s, from)] == '\n',
        forall|k: int| from <= k < line_end(s, from) ==> s[k] != '\n',
    decreases s.len() - from,
{
    if from < s.len() && s[from] != '\n' {
        lemma_line_end(s, from + 1);
    }
}

/// The number that four hexadecimal digits from `at` on write.
fn parse_hex4(chars: &Vec<char>, at: usize) -> (r: Option<u16>)
    requires
        at + 4 <= chars.len(),
    ensures
        match r {
            Some(value) => hex4(chars@, at as int) == Some(value as int),
            None => hex4(chars@, at as int) is None,
        },
{
    let a = match digit_of(chars[at], 16) {
        Some(d) => d,
        None => {
            return None;
        },
    };
    let b = match digit_of(chars[at + 1], 16) {
        Some(d) => d,
        None => {
            return None;
        },
    };
    let c = match digit_of(chars[at + 2], 16) {
        Some(d) => d,
        None => {
            return None;
        },
    };
    let d = match digit_of(chars[at + 3], 16) {
        Some(d) => d,
        None => {
            return None;
        },
    };
    Some((a * 4096 + b * 256 + c * 16 + d) as u16)
}

/// The program memory that an image describes: `ROM_SIZE` words, each a
/// halt unless a line of the image sets it.
pub fn parse_program(prog: &str) -> (r: Result<Vec<u16>, ImageError>)
    ensures
        match r {
            Ok(rom) => image_from(prog@, 0, Seq::new(ROM_SIZE as nat, |i: int| FILL)) == Ok::<
                Seq<u16>,
                ImageError,
            >(rom@),
            Err(e) => image_from(prog@, 0, Seq::new(ROM_SIZE as nat, |i: int| FILL)) == Err::<
                Seq<u16>,
                ImageError,
            >(e),
        },
{
    let chars = chars_of(prog);
    let mut program: Vec<u16> = Vec::new();
    while program.len() < ROM_SIZE
        invariant
            program@.len() <= ROM_SIZE,
            forall|i: int| 0 <= i < program@.len() ==> program@[i] == FILL,
        decreases ROM_SIZE - program@.len(),
    {
        program.push(FILL);
    }
    assert(program@ =~= Seq::new(ROM_SIZE as nat, |i: int| FILL));
    let ghost start = program@;
    let mut from: usize = 0;
    while from < chars.len()
        invariant
            from <= chars.len(),
            chars@ == prog@,
            program@.len() == ROM_SIZE,
            start == Seq::new(ROM_SIZE as nat, |i: int| FILL),
            image_from(chars@, 0, start) == image_from(chars@, from as int, program@),
        decreases chars.len() - from,
    {
        let mut end: usize = from;
        while end < chars.len() && chars[end] != '\n'
            invariant
                from <= end <= chars.len(),
                line_end(chars@, from as int) == line_end(chars@, end as int),
            decreases chars.len() - end,
        {
            end += 1;
        }
        proof {
            lemma_line_end(chars@, from as int);
        }
        let ghost line = chars@.subrange(from as int, end as int);
        if end - from >= 12 && chars[from + 4] == ' ' && chars[from + 5] == ':' && chars[from + 6]
            == ' ' && chars[from + 11] == ';' {
            assert(line[4] == chars@[from + 4] && line[5] == chars@[from + 5] && line[6] == chars@[from
                + 6] && line[11] == chars@[from + 11]);
            assert(hex4(line, 0) == hex4(chars@, from as int)) by {
                assert(line[0] == chars@[from + 0] && line[1] == chars@[from + 1] && line[2]
                    == chars@[from + 2] && line[3] == chars@[from + 3]);
            }
            assert(hex4(line, 7) == hex4(chars@, from + 7)) by {
                assert(line[7] == chars@[from + 7] && line[8] == chars@[from + 8] && line[9]
                    == chars@[from + 9] && line[10] == chars@[from + 10]);
            }
            match (parse_hex4(&chars, from), parse_hex4(&chars, from + 7)) {
                (Some(addr), Some(val)) => {
                    if (addr as usize) < program.len() {
                        program[addr as usize] = val;
                    } else {
                        return Err(ImageError { addr });
                    }
                },
                _ => {},
            }
        } else {
            assert(line_entry(line) is None) by {
                if end - from >= 12 {
                    assert(line[4] == chars@[from + 4] && line[5] == chars@[from + 5] && line[6]
                        == chars@[from + 6] && line[11] == chars@[from + 11]);
                }
            }
        }
        if end < chars.len() {
            from = end + 1;
        } else {
            assert(image_from(chars@, end + 1, program@) == image_from(
                chars@,
                end as int,
                program@,
            ));
            from = end;
        }
    }
    Ok(program)
}

} // verus!
