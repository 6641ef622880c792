//! The syntax tree of assembly text, and the numbers written in it.

use crate::text::{chars_of, parse_int, parsed_int};
use vstd::prelude::*;

verus! {

/// A label, with its leading dot.
#[derive(Debug)]
pub struct Label<'input> {
    pub label: &'input str,
}

/// A register by its index.
#[derive(Debug)]
pub struct Register {
    pub register: i32,
}

/// A request for a number of words of storage.
#[derive(Debug)]
pub struct Allocation {
    pub size: i32,
}

#[derive(Debug)]
pub enum PushPopOpcode {
    PUSH,
    POP,
}

#[derive(Debug)]
pub enum LoadStoreOpcode {
    LOAD,
    STR,
}

#[derive(Debug)]
pub enum IMoveOpcode {
    IMOV,
    IMOH,
}

#[derive(Debug)]
pub enum NoArgumentOpcode {
    RTI,
    HALT,
}

#[derive(Debug)]
pub enum JumpOpcode {
    JMP,
    JZ,
    JNZ,
    JN,
    JP,
}

#[derive(Debug)]
pub enum JumpLinkOpcode {
    JMPL,
    JZL,
    JNZL,
    JNL,
    JPL,
}

#[derive(Debug)]
pub enum JumpRetOpcode {
    JMPR,
    JZR,
    JNZR,
    JNR,
    JPR,
}

#[derive(Debug)]
pub enum SingleALUOpcode {
    NOT,
}

#[derive(Debug)]
pub enum ALUOpcode {
    AND,
    OR,
    XOR,
    ADD,
    SUB,
    MOV,
    SHR,
    SSHR,
    SHL,
}

#[derive(Debug)]
pub enum IALUOpcode {
    IAND,
    IOR,
    IXOR,
    IADD,
    ISUB,
    ISHR,
    ISSHR,
    ISHL,
}

/// An immediate operand: a label or a number.
#[derive(Debug)]
pub enum IVal<'input> {
    Label(Label<'input>),
    Numeric(i32),
}

/// An instruction with its operands.
#[derive(Debug)]
pub enum Instruction<'input> {
    PushPop(PushPopOpcode, Register),
    LoadStore(LoadStoreOpcode, Register, Register),
    IMove(IMoveOpcode, Register, IVal<'input>),
    NoArgument(NoArgumentOpcode),
    Jump(JumpOpcode, Register),
    JumpLink(JumpLinkOpcode, Register),
    JumpRet(JumpRetOpcode),
    SingleALU(SingleALUOpcode, Register),
    ALU(ALUOpcode, Register, Register),
    IALU(IALUOpcode, Register, IVal<'input>),
}

/// A line of assembly text.
#[derive(Debug)]
pub enum Statement<'input> {
    Label(Label<'input>),
    Instruction(Instruction<'input>),
    Numeric(i32),
}

impl Register {
    pub fn new(register: i32) -> (r: Register)
        ensures
            r.register == register,
    {
        Register { register }
    }
}

impl Allocation {
    pub fn new(size: i32) -> (a: Allocation)
        ensures
            a.size == size,
    {
        Allocation { size }
    }
}

/// A text that is no number.
#[derive(Debug, Clone, Copy, PartialEq, Eq, Structural)]
pub struct InvalidNumber;

/// The number that `s` writes: in base sixteen behind `0x`, in base two
/// behind `0b`, in base ten otherwise; `None` where it writes none between
/// `min` and `max`.
pub open spec fn prefixed_int(s: Seq<char>, min: int, max: int) -> Option<int> {
    if s.len() >= 2 && s[0] == '0' && s[1] == 'x' {
        parsed_int(s.skip(2), 16, min, max)
    } else if s.len() >= 2 && s[0] == '0' && s[1] == 'b' {
        parsed_int(s.skip(2), 2, min, max)
    } else {
        parsed_int(s, 10, min, max)
    }
}

/// Numbers that can be written with a prefix that names their base.
pub trait ParseWithPrefix: Sized {
    type Err;

    /// The number that the text writes.
    spec fn prefixed(s: Seq<char>) -> Option<Self>;

    fn parse_with_prefix(s: &str) -> (r: Result<Self, Self::Err>)
        ensures
            match r {
                Ok(value) => Self::prefixed(s@) == Some(value),
                Err(_) => Self::prefixed(s@) is None,
            },
    ;
}

impl ParseWithPrefix for i32 {
    type Err = InvalidNumber;

    open spec fn prefixed(s: Seq<char>) -> Option<i32> {
        match prefixed_int(s, i32::MIN as int, i32::MAX as int) {
            Some(value) => Some(value as i32),
            None => None,
        }
    }

    fn parse_with_prefix(s: &str) -> (r: Result<i32, InvalidNumber>) {
        let chars = chars_of(s);
        let (radix, skip): (u32, usize) = if chars.len() >= 2 && chars[0] == '0' && chars[1] == 'x' {
            (16, 2)
        } else if chars.len() >= 2 && chars[0] == '0' && chars[1] == 'b' {
            (2, 2)
        } else {
            (10, 0)
        };
        let mut digits: Vec<char> = Vec::new();
        let mut i: usize = skip;
        while i < chars.len()
            invariant
                skip <= i <= chars.len(),
                digits@ == chars@.subrange(skip as int, i as int),
            decreases chars.len() - i,
        {
            digits.push(chars[i]);
            assert(digits@ =~= chars@.subrange(skip as int, i + 1));
            i += 1;
        }
        assert(digits@ =~= chars@.skip(skip as int));
        assert(chars@.skip(0) =~= chars@);
        match parse_int(&digits, radix, -0x8000_0000, 0x7FFF_FFFF) {
            Some(value) => Ok(value as i32),
            None => Err(InvalidNumber),
        }
    }
}

} // verus!
