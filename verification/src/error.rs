//! What can go wrong while a module is compiled, and how it is told.

use crate::ast::Span;
use vstd::prelude::*;
use vstd::string::StringExecFns;

verus! {

/// The reason for which a compilation stops.
#[derive(Debug, Clone, Copy, PartialEq, Eq, Structural)]
pub enum ErrorKind {
    /// A value that is no pointer was dereferenced.
    NotAPointer,
    /// A written type names neither a built-in type nor a struct in scope.
    UnknownType,
    /// A struct type names no struct of the table.
    UnknownStruct,
    /// A size does not fit the machine's word for sizes.
    SizeOverflow,
    /// A struct holds itself without a pointer in between.
    RecursiveStruct,
    /// The type of a struct member is not in scope.
    UnknownMemberType,
    /// A struct member is a function and not a pointer to one.
    FunctionMember,
    /// A struct member is a generic type.
    GenericMember,
    /// A count is negative.
    InvalidSize,
    /// Two structs have one qualified name.
    DuplicateStruct,
    /// Two functions have one qualified name.
    DuplicateFunction,
    /// A type in a function's signature is not in scope.
    BadSignature,
    /// The stack does not hold what an operation takes.
    StackMismatch,
    /// A produced generic type is bound by no taken type.
    UnboundGeneric,
    /// None of the alternative stack effects of an operation matches the stack.
    NoMatchingRule,
    /// The abstract stack cannot grow any further.
    StackTooDeep,
    /// A condition is taken from an empty stack.
    ConditionMissing,
    /// The value taken as a condition is neither a number nor a pointer.
    ConditionType,
    /// The two arms of a conditional leave different stacks.
    BranchMismatch,
    /// The body of a loop does not restore the stack that the loop was entered with.
    LoopMismatch,
    /// A `let` binds a value from an empty stack.
    BindingMissing,
    /// A name is neither a binding, a global, an inline nor a function in scope.
    UnknownFunction,
    /// A call through a pointer finds no function pointer on the stack.
    NotAFunctionPointer,
    /// A member access finds no pointer to a struct on the stack.
    NotAStructPointer,
    /// A struct has no member of the name.
    UnknownMember,
    /// A `return` finds a stack other than the function's declared output.
    ReturnMismatch,
    /// A function's body ends on a stack other than its declared output.
    SignatureMismatch,
    /// The interrupt service routine declares inputs or outputs.
    IsrSignature,
    /// The interrupt service routine leaves items on the stack.
    IsrStack,
    /// Inline definitions expand into one another without end.
    InlineDepth,
    /// No number is left for another label or constant.
    LabelsExhausted,
    /// More prefixes are in scope than can be counted.
    ScopeTooDeep,
}

/// What an error says in words. `subject` is the name that the error is
/// about, `required` what was asked for and `found` what was there instead;
/// an error uses those of the three that its sentence has a place for.
pub open spec fn message_text(
    kind: ErrorKind,
    subject: Seq<char>,
    required: Seq<char>,
    found: Seq<char>,
) -> Seq<char> {
    match kind {
        ErrorKind::NotAPointer => "`"@ + subject + "` requires a pointer at the top of the stack. Current stack is "@ + found + "."@,
        ErrorKind::UnknownType => "Type `"@ + required + "` named in `"@ + subject + "` is not in scope. The prefixes tried are "@ + found + "."@,
        ErrorKind::UnknownStruct => "Error looking up struct `"@ + subject + "`, that type is not in scope here."@,
        ErrorKind::SizeOverflow => "A size in `"@ + subject + "` is too large."@,
        ErrorKind::RecursiveStruct => "Struct `"@ + subject + "` contains a recursive definition without indirection."@,
        ErrorKind::UnknownMemberType => "Error looking up member type `"@ + subject + "` for struct `"@ + required + "`, that type is not in scope here. The prefixes tried are "@ + found + "."@,
        ErrorKind::FunctionMember => "Struct member `"@ + subject + "` directly defines a function as a type. You should use a function pointer here."@,
        ErrorKind::GenericMember => "Struct member `"@ + subject + "` directly defines a generic as a type. You must use a concrete type here."@,
        ErrorKind::InvalidSize => "A count in `"@ + subject + "` is negative."@,
        ErrorKind::DuplicateStruct => "Struct `"@ + subject + "` is already defined."@,
        ErrorKind::DuplicateFunction => "Function `"@ + subject + "` is already defined."@,
        ErrorKind::BadSignature => "Could not parse some types in function `"@ + subject + "`: type `"@ + required + "` is not in scope. The prefixes tried are "@ + found + "."@,
        ErrorKind::StackMismatch => "Cannot invoke statement `"@ + subject + "` as it requires types "@ + required + " at the top of the stack. Current stack is "@ + found + "."@,
        ErrorKind::UnboundGeneric => "Cannot invoke statement `"@ + subject + "` as a generic type that it produces has no corresponding input type. It requires types "@ + required + " at the top of the stack. Current stack is "@ + found + "."@,
        ErrorKind::NoMatchingRule => "Cannot invoke statement `"@ + subject + "` as it requires one of"@ + required + " to match. Current stack is "@ + found + "."@,
        ErrorKind::StackTooDeep => "Cannot invoke statement `"@ + subject + "` as it leaves more items on the stack than can be counted. It requires types "@ + required + " at the top of the stack. Current stack is "@ + found + "."@,
        ErrorKind::ConditionMissing => "The "@ + subject + " statement needs an element at the top of the stack to serve as a conditional. Current stack is empty."@,
        ErrorKind::ConditionType => "Element `"@ + found + "` at the top of the stack cannot be used as the conditional for the "@ + subject + " statement."@,
        ErrorKind::BranchMismatch => "If and else blocks do not have the same elements on the stack after execution. If has "@ + required + " and else has "@ + found,
        ErrorKind::LoopMismatch => "The stack after the body of the loop and before its condition need to be identical. Before the condition "@ + required + ", after the body "@ + found,
        ErrorKind::BindingMissing => "Cannot bind `"@ + subject + "` since the stack is empty at this point."@,
        ErrorKind::UnknownFunction => "Was not able to find function signature of function `"@ + subject + "`. The prefixes tried are "@ + found + "."@,
        ErrorKind::NotAFunctionPointer => "Using the `()` operator requires function pointer to be on the top of the stack. Top of the stack is "@ + found + "."@,
        ErrorKind::NotAStructPointer => "Struct access ."@ + subject + " requires one struct pointer at the top of the stack. Current stack is "@ + found + "."@,
        ErrorKind::UnknownMember => "Struct `"@ + required + "` does not have a member `"@ + subject + "`."@,
        ErrorKind::ReturnMismatch => "Cannot return here. Expecting stack contents of "@ + required + " but found "@ + found,
        ErrorKind::SignatureMismatch => "The signature of the function expects a return of "@ + required + ", but the body leaves "@ + found,
        ErrorKind::IsrSignature => "Interrupt service routine (isr) cannot take in or emit stack items."@,
        ErrorKind::IsrStack => "Interrupt service routine (isr) has to handle all stack items, but "@ + found + " remains on the stack."@,
        ErrorKind::InlineDepth => "Inline definition `"@ + subject + "` expands into itself without end."@,
        ErrorKind::LabelsExhausted => "No number is left for another label or constant."@,
        ErrorKind::ScopeTooDeep => "Module `"@ + subject + "` has more prefixes in scope than can be counted."@,
    }
}

/// The mathematical value of an error: its place, its kind and its message.
pub struct Failure {
    pub span: Span,
    pub kind: ErrorKind,
    pub detail: Seq<char>,
}

/// The error of the kind at the place, about `subject`, with what was required and what was found.
pub open spec fn failure(
    span: Span,
    kind: ErrorKind,
    subject: Seq<char>,
    required: Seq<char>,
    found: Seq<char>,
) -> Failure {
    Failure { span, kind, detail: message_text(kind, subject, required, found) }
}

/// The error of the kind at the place, about `subject` alone.
pub open spec fn plain(span: Span, kind: ErrorKind, subject: Seq<char>) -> Failure {
    failure(span, kind, subject, ""@, ""@)
}

/// The place of an error that belongs to no place in the source.
pub open spec fn nowhere() -> Span {
    Span { start: 0, end: 0 }
}

/// An error with the place in the source that it is about.
#[derive(Debug, Clone)]
pub struct CompileError {
    pub span: Span,
    pub kind: ErrorKind,
    /// What went wrong, in words, for the person who wrote the source.
    pub detail: String,
}

impl View for CompileError {
    type V = Failure;

    open spec fn view(&self) -> Failure {
        Failure { span: self.span, kind: self.kind, detail: self.detail@ }
    }
}

/// The message of an error of the kind.
pub fn render_message(kind: ErrorKind, subject: &str, required: &str, found: &str) -> (r: String)
    ensures
        r@ == message_text(kind, subject@, required@, found@),
{
    match kind {
        ErrorKind::NotAPointer => {
            let mut r = String::from_str("`");
            r.append(subject);
            r.append("` requires a pointer at the top of the stack. Current stack is ");
            r.append(found);
            r.append(".");
            r
        },
        ErrorKind::UnknownType => {
            let mut r = String::from_str("Type `");
            r.append(required);
            r.append("` named in `");
            r.append(subject);
            r.append("` is not in scope. The prefixes tried are ");
            r.append(found);
            r.append(".");
            r
        },
        ErrorKind::UnknownStruct => {
            let mut r = String::from_str("Error looking up struct `");
            r.append(subject);
            r.append("`, that type is not in scope here.");
            r
        },
        ErrorKind::SizeOverflow => {
            let mut r = String::from_str("A size in `");
            r.append(subject);
            r.append("` is too large.");
            r
        },
        ErrorKind::RecursiveStruct => {
            let mut r = String::from_str("Struct `");
            r.append(subject);
            r.append("` contains a recursive definition without indirection.");
            r
        },
        ErrorKind::UnknownMemberType => {
            let mut r = String::from_str("Error looking up member type `");
            r.append(subject);
            r.append("` for struct `");
            r.append(required);
            r.append("`, that type is not in scope here. The prefixes tried are ");
            r.append(found);
            r.append(".");
            r
        },
        ErrorKind::FunctionMember => {
            let mut r = String::from_str("Struct member `");
            r.append(subject);
            r.append("` directly defines a function as a type. You should use a function pointer here.");
            r
        },
        ErrorKind::GenericMember => {
            let mut r = String::from_str("Struct member `");
            r.append(subject);
            r.append("` directly defines a generic as a type. You must use a concrete type here.");
            r
        },
        ErrorKind::InvalidSize => {
            let mut r = String::from_str("A count in `");
            r.append(subject);
            r.append("` is negative.");
            r
        },
        ErrorKind::DuplicateStruct => {
            let mut r = String::from_str("Struct `");
            r.append(subject);
            r.append("` is already defined.");
            r
        },
        ErrorKind::DuplicateFunction => {
            let mut r = String::from_str("Function `");
            r.append(subject);
            r.append("` is already defined.");
            r
        },
        ErrorKind::BadSignature => {
            let mut r = String::from_str("Could not parse some types in function `");
            r.append(subject);
            r.append("`: type `");
            r.append(required);
            r.append("` is not in scope. The prefixes tried are ");
            r.append(found);
            r.append(".");
            r
        },
        ErrorKind::StackMismatch => {
            let mut r = String::from_str("Cannot invoke statement `");
            r.append(subject);
            r.append("` as it requires types ");
            r.append(required);
            r.append(" at the top of the stack. Current stack is ");
            r.append(found);
            r.append(".");
            r
        },
        ErrorKind::UnboundGeneric => {
            let mut r = String::from_str("Cannot invoke statement `");
            r.append(subject);
            r.append("` as a generic type that it produces has no corresponding input type. It requires types ");
            r.append(required);
            r.append(" at the top of the stack. Current stack is ");
            r.append(found);
            r.append(".");
            r
        },
        ErrorKind::NoMatchingRule => {
            let mut r = String::from_str("Cannot invoke statement `");
            r.append(subject);
            r.append("` as it requires one of");
            r.append(required);
            r.append(" to match. Current stack is ");
            r.append(found);
            r.append(".");
            r
        },
        ErrorKind::StackTooDeep => {
            let mut r = String::from_str("Cannot invoke statement `");
            r.append(subject);
            r.append("` as it leaves more items on the stack than can be counted. It requires types ");
            r.append(required);
            r.append(" at the top of the stack. Current stack is ");
            r.append(found);
            r.append(".");
            r
        },
        ErrorKind::ConditionMissing => {
            let mut r = String::from_str("The ");
            r.append(subject);
            r.append(" statement needs an element at the top of the stack to serve as a conditional. Current stack is empty.");
            r
        },
        ErrorKind::ConditionType => {
            let mut r = String::from_str("Element `");
            r.append(found);
            r.append("` at the top of the stack cannot be used as the conditional for the ");
            r.append(subject);
            r.append(" statement.");
            r
        },
        ErrorKind::BranchMismatch => {
            let mut r = String::from_str("If and else blocks do not have the same elements on the stack after execution. If has ");
            r.append(required);
            r.append(" and else has ");
            r.append(found);
            r
        },
        ErrorKind::LoopMismatch => {
            let mut r = String::from_str("The stack after the body of the loop and before its condition need to be identical. Before the condition ");
            r.append(required);
            r.append(", after the body ");
            r.append(found);
            r
        },
        ErrorKind::BindingMissing => {
            let mut r = String::from_str("Cannot bind `");
            r.append(subject);
            r.append("` since the stack is empty at this point.");
            r
        },
        ErrorKind::UnknownFunction => {
            let mut r = String::from_str("Was not able to find function signature of function `");
            r.append(subject);
            r.append("`. The prefixes tried are ");
            r.append(found);
            r.append(".");
            r
        },
        ErrorKind::NotAFunctionPointer => {
            let mut r = String::from_str("Using the `()` operator requires function pointer to be on the top of the stack. Top of the stack is ");
            r.append(found);
            r.append(".");
            r
        },
        ErrorKind::NotAStructPointer => {
            let mut r = String::from_str("Struct access .");
            r.append(subject);
            r.append(" requires one struct pointer at the top of the stack. Current stack is ");
            r.append(found);
            r.append(".");
            r
        },
        ErrorKind::UnknownMember => {
            let mut r = String::from_str("Struct `");
            r.append(required);
            r.append("` does not have a member `");
            r.append(subject);
            r.append("`.");
            r
        },
        ErrorKind::ReturnMismatch => {
            let mut r = String::from_str("Cannot return here. Expecting stack contents of ");
            r.append(required);
            r.append(" but found ");
            r.append(found);
            r
        },
        ErrorKind::SignatureMismatch => {
            let mut r = String::from_str("The signature of the function expects a return of ");
            r.append(required);
            r.append(", but the body leaves ");
            r.append(found);
            r
        },
        ErrorKind::IsrSignature => {
            let mut r = String::from_str("Interrupt service routine (isr) cannot take in or emit stack items.");
            r
        },
        ErrorKind::IsrStack => {
            let mut r = String::from_str("Interrupt service routine (isr) has to handle all stack items, but ");
            r.append(found);
            r.append(" remains on the stack.");
            r
        },
        ErrorKind::InlineDepth => {
            let mut r = String::from_str("Inline definition `");
            r.append(subject);
            r.append("` expands into itself without end.");
            r
        },
        ErrorKind::LabelsExhausted => {
            let mut r = String::from_str("No number is left for another label or constant.");
            r
        },
        ErrorKind::ScopeTooDeep => {
            let mut r = String::from_str("Module `");
            r.append(subject);
            r.append("` has more prefixes in scope than can be counted.");
            r
        },
    }
}

impl CompileError {
    /// The error of the kind at the place, about `subject`, with what was
    /// required and what was found.
    pub fn new(span: Span, kind: ErrorKind, subject: &str, required: &str, found: &str) -> (e:
        CompileError)
        ensures
            e@ == failure(span, kind, subject@, required@, found@),
    {
        CompileError { span, kind, detail: render_message(kind, subject, required, found) }
    }

    /// The message shown to the user.
    pub fn message(&self) -> (m: String)
        ensures
            m@ == self@.detail,
    {
        self.detail.clone()
    }
}

/// An error at `span`, as a result.
pub fn fail<T>(span: &Span, kind: ErrorKind, subject: &str, required: &str, found: &str) -> (r:
    Result<T, CompileError>)
    ensures
        r matches Err(e) && e@ == failure(*span, kind, subject@, required@, found@),
{
    Err(CompileError::new(*span, kind, subject, required, found))
}

/// An error at `span` about `subject` alone, as a result.
pub fn fail_plain<T>(span: &Span, kind: ErrorKind, subject: &str) -> (r: Result<T, CompileError>)
    ensures
        r matches Err(e) && e@ == plain(*span, kind, subject@),
{
    Err(CompileError::new(*span, kind, subject, "", ""))
}

} // verus!
