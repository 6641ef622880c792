//! The syntax tree of a source module, as the parser hands it over.

use std::rc::Rc;
use vstd::prelude::*;

verus! {

/// A range of bytes in the source text.
#[derive(Debug, Clone, Copy, PartialEq, Eq, Structural)]
pub struct Span {
    pub start: usize,
    pub end: usize,
}

impl Span {
    pub fn new(start: usize, end: usize) -> (s: Span)
        ensures
            s == (Span { start, end }),
    {
        Span { start, end }
    }
}

/// An operator, with its place in the source.
#[derive(Debug)]
pub enum Operator {
    Add(Span),
    Sub(Span),
    BOr(Span),
    BAnd(Span),
    BNot(Span),
    Sshr(Span),
    Shr(Span),
    Shl(Span),
    Xor(Span),
    LOr(Span),
    LAnd(Span),
    LNot(Span),
    Eq(Span),
    Lt(Span),
    Lte(Span),
    Gt(Span),
    Gte(Span),
    Return(Span),
    Ptr(Span, Identifier),
    Call(Span),
    As(Span, LexType),
    SizeOf(Span, LexType),
    StructAccess(Span, String),
    ConstArrayAccess(Span, IntLiteral),
    Hole(Span),
}

impl Operator {
    /// The place of the operator in the source.
    pub open spec fn place(self) -> Span {
        match self {
            Operator::Add(span) => span,
            Operator::Sub(span) => span,
            Operator::BOr(span) => span,
            Operator::BAnd(span) => span,
            Operator::BNot(span) => span,
            Operator::Sshr(span) => span,
            Operator::Shr(span) => span,
            Operator::Shl(span) => span,
            Operator::Xor(span) => span,
            Operator::LOr(span) => span,
            Operator::LAnd(span) => span,
            Operator::LNot(span) => span,
            Operator::Eq(span) => span,
            Operator::Lt(span) => span,
            Operator::Lte(span) => span,
            Operator::Gt(span) => span,
            Operator::Gte(span) => span,
            Operator::Return(span) => span,
            Operator::Ptr(span, _) => span,
            Operator::Call(span) => span,
            Operator::As(span, _) => span,
            Operator::SizeOf(span, _) => span,
            Operator::StructAccess(span, _) => span,
            Operator::ConstArrayAccess(span, _) => span,
            Operator::Hole(span) => span,
        }
    }

    /// The place of the operator in the source.
    pub fn span(&self) -> (span: Span)
        ensures
            span == self.place(),
    {
        match self {
            Operator::Add(span) => *span,
            Operator::Sub(span) => *span,
            Operator::BOr(span) => *span,
            Operator::BAnd(span) => *span,
            Operator::BNot(span) => *span,
            Operator::Sshr(span) => *span,
            Operator::Shr(span) => *span,
            Operator::Shl(span) => *span,
            Operator::Xor(span) => *span,
            Operator::LOr(span) => *span,
            Operator::LAnd(span) => *span,
            Operator::LNot(span) => *span,
            Operator::Eq(span) => *span,
            Operator::Lt(span) => *span,
            Operator::Lte(span) => *span,
            Operator::Gt(span) => *span,
            Operator::Gte(span) => *span,
            Operator::Return(span) => *span,
            Operator::Ptr(span, _) => *span,
            Operator::Call(span) => *span,
            Operator::As(span, _) => *span,
            Operator::SizeOf(span, _) => *span,
            Operator::StructAccess(span, _) => *span,
            Operator::ConstArrayAccess(span, _) => *span,
            Operator::Hole(span) => *span,
        }
    }
}

/// A number.
#[derive(Debug, Clone)]
pub struct IntLiteral {
    pub span: Span,
    pub val: isize,
}

/// A string: its words.
#[derive(Debug, Clone)]
pub struct IntArray {
    pub span: Span,
    pub val: Vec<u16>,
}

/// A truth value.
#[derive(Debug, Clone)]
pub struct BoolLiteral {
    pub span: Span,
    pub val: isize,
}

/// A name.
#[derive(Debug, Clone)]
pub struct Identifier {
    pub span: Span,
    pub name: String,
}

/// A statement of a block.
#[derive(Debug)]
pub enum Statement {
    IntLiteral(IntLiteral),
    IntArray(IntArray),
    BoolLiteral(BoolLiteral),
    Identifier(Identifier),
    Operator(Operator),
    Block(Block),
    Unroll(Unroll),
    If(If),
    While(While),
    Let(Let),
}

/// A block that is emitted `times` times in a row.
#[derive(Debug)]
pub struct Unroll {
    pub span: Span,
    pub times: IntLiteral,
    pub body: Block,
}

/// A conditional: the first block runs where the condition is not zero, the second where it is.
#[derive(Debug)]
pub struct If {
    pub span: Span,
    pub if_block: Block,
    pub else_block: Option<Block>,
}

/// A loop: `eval` leaves the condition, and `body` runs for as long as it is not zero.
#[derive(Debug)]
pub struct While {
    pub span: Span,
    pub eval: Block,
    pub body: Block,
}

/// Names for the top items of the stack, in scope within `body`.
#[derive(Debug)]
pub struct Let {
    pub span: Span,
    pub bindings: Vec<Identifier>,
    pub body: Block,
}

/// Statements in a row.
#[derive(Debug)]
pub struct Block {
    pub span: Span,
    pub body: Vec<Statement>,
}

/// A function: its name, the stack effect that it declares, and its body.
#[derive(Debug)]
pub struct Function {
    pub span: Span,
    pub name: Identifier,
    pub type_def: FuncType,
    pub body: Block,
}

/// A global variable: `size` elements of the type, initialised to `val`.
#[derive(Debug)]
pub struct Global {
    pub span: Span,
    pub name: Identifier,
    pub size: isize,
    pub var_type: LexType,
    pub val: IntLiteral,
}

/// A name that stands for a statement.
#[derive(Debug)]
pub struct Inline {
    pub span: Span,
    pub name: Identifier,
    /// The statement that takes the place of the name. It is shared with the
    /// table of inline definitions.
    pub statement: Rc<Statement>,
}

/// A module whose names are in scope without its prefix.
#[derive(Debug, Clone)]
pub struct Using {
    pub span: Span,
    pub name: Identifier,
}

/// The declaration of a struct.
#[derive(Debug)]
pub struct StructDef {
    pub span: Span,
    pub name: Identifier,
    pub members: Vec<StructMember>,
}

/// A member of a struct: `size` elements of the type.
#[derive(Debug)]
pub struct StructMember {
    pub span: Span,
    pub name: Identifier,
    pub var_type: LexType,
    pub size: isize,
}

/// A module inside another, under its name.
#[derive(Debug)]
pub struct NamedModule {
    pub name: Identifier,
    pub module: Module,
}

/// A module: what it defines, the modules inside it, and the modules that it uses.
#[derive(Debug)]
pub struct Module {
    pub span: Span,
    pub globals: Vec<Global>,
    pub inlines: Vec<Inline>,
    pub functions: Vec<Function>,
    pub struct_defs: Vec<StructDef>,
    pub modules: Vec<NamedModule>,
    pub usings: Vec<Using>,
}

/// A type as it is written in the source.
#[derive(Debug)]
pub enum LexType {
    Base(Identifier),
    Ptr(Box<LexType>),
    Gen(Identifier),
    Func(FuncType),
}

/// A stack effect as it is written: the types taken and the types left.
#[derive(Debug)]
pub struct FuncType {
    pub i: Vec<LexType>,
    pub o: Vec<LexType>,
}

} // verus!
