//! The operators: what each does to the abstract stack, and its assembly text.

use crate::assembly::{
    add_offset, add_offset_text, binary, binary_text, call_pointer, call_pointer_text, comparison,
    comparison_text, function_address, function_address_text, logical_and, logical_and_text,
    logical_not, logical_not_text, logical_or, logical_or_text, push_size, push_size_text,
    return_jump, return_jump_text, NOT,
};
use crate::ast::{Operator, Span};
use crate::error::{fail, fail_plain, failure, plain, CompileError, ErrorKind, Failure};
use crate::gss::Stack;
use crate::render::{names_text, render_types, render_usings, type_text, types_text};
use crate::labels::{
    context_base, function_label, function_label_of, generate_label_with_context, numbered_label,
};
use crate::scope::resolved;
use crate::sizes::member_of;
use crate::state::lemma_defined;
use crate::table::{held, value_in};
use crate::sizes::{size_of_type, struct_name, TypeSize};
use crate::state::{
    context_of, emitted, env_of, same_definitions, Context, Env, FunctionState, GlobalState,
    Outcome,
};
use crate::text::{join, push_signed_decimal, signed_decimal};
use crate::type_check::{
    check_and_apply_multiple_stack_transitions, check_and_apply_stack_transition,
    first_transition, no_rule_failure, render_stack, stack_types, transition,
    transition_failure, view_rules,
};
use crate::type_parse::{found_text, name_or_none, parsed_type, unknown_in};
use crate::types::{view_types, Type, TypeView};
use vstd::prelude::*;
use vstd::std_specs::cmp::PartialEqSpec;
use vstd::string::StringExecFns;

verus! {

/// A pointer of depth one to `t`.
pub open spec fn pointer_to(t: TypeView) -> TypeView {
    TypeView::Pointer(1, Box::new(t))
}

/// The generic type `$a`.
pub open spec fn generic_a() -> TypeView {
    TypeView::Generic("$a"@)
}

/// The generic type `$b`.
pub open spec fn generic_b() -> TypeView {
    TypeView::Generic("$b"@)
}

/// The generic type `$c`.
pub open spec fn generic_c() -> TypeView {
    TypeView::Generic("$c"@)
}

/// The name under which an operation with an argument is reported: the
/// word, and the argument in round brackets.
pub open spec fn named_with(word: Seq<char>, argument: Seq<char>) -> Seq<char> {
    word + "("@ + argument + ")"@
}

/// The name under which the access to the element of an index is reported:
/// the index in square brackets.
pub open spec fn element_name(index: int) -> Seq<char> {
    "["@ + signed_decimal(index) + "]"@
}

/// The outcome of the operation of the name `name` with one stack effect and the text `text`.
pub open spec fn step(
    env: Env,
    span: Span,
    name: Seq<char>,
    in_t: Seq<TypeView>,
    out_t: Seq<TypeView>,
    text: Seq<char>,
) -> Outcome {
    match transition(env.stack, in_t, out_t) {
        Ok(stack) => Ok((Env { stack, ..env }, text)),
        Err(kind) => Err(transition_failure(name, span, env.stack, in_t, kind)),
    }
}

/// The outcome of the operation of the name `name` with alternative stack
/// effects and the text `text`.
pub open spec fn step_rules(
    env: Env,
    span: Span,
    name: Seq<char>,
    rules: Seq<(Seq<TypeView>, Seq<TypeView>)>,
    text: Seq<char>,
) -> Outcome {
    match first_transition(env.stack, rules, 0) {
        Ok(stack) => Ok((Env { stack, ..env }, text)),
        Err(_) => Err(no_rule_failure(name, span, env.stack, rules)),
    }
}

/// The stack effects of `+`: a pointer and a number give a pointer, in
/// either order; two numbers give a number.
pub open spec fn add_rules() -> Seq<(Seq<TypeView>, Seq<TypeView>)> {
    seq![
        (seq![pointer_to(generic_a()), TypeView::U16], seq![pointer_to(generic_a())]),
        (seq![TypeView::U16, pointer_to(generic_a())], seq![pointer_to(generic_a())]),
        (seq![TypeView::U16, TypeView::U16], seq![TypeView::U16]),
    ]
}

/// The stack effects of `-`: a pointer less a number is a pointer; two
/// pointers to the same type give their distance; two numbers give a number.
pub open spec fn sub_rules() -> Seq<(Seq<TypeView>, Seq<TypeView>)> {
    seq![
        (seq![pointer_to(generic_a()), TypeView::U16], seq![pointer_to(generic_a())]),
        (seq![pointer_to(generic_a()), pointer_to(generic_a())], seq![TypeView::U16]),
        (seq![TypeView::U16, TypeView::U16], seq![TypeView::U16]),
    ]
}

/// Two numbers.
pub open spec fn two_numbers() -> Seq<TypeView> {
    seq![TypeView::U16, TypeView::U16]
}

/// One number.
pub open spec fn one_number() -> Seq<TypeView> {
    seq![TypeView::U16]
}

/// The error of a call through what is no pointer to a function: it names the top of the stack.
pub open spec fn not_a_function_pointer(span: Span, env: Env) -> Failure {
    failure(span, ErrorKind::NotAFunctionPointer, ""@, ""@, type_text(env.stack.last()))
}

/// The call through the pointer on top of the stack: the pointer is taken
/// off, it must point to a function, and the function's effect is applied.
pub open spec fn call_effect(block_id: Seq<char>, span: Span, env: Env) -> Outcome {
    match transition(env.stack, seq![pointer_to(generic_a())], Seq::empty()) {
        Err(kind) => Err(
            transition_failure("()"@, span, env.stack, seq![pointer_to(generic_a())], kind),
        ),
        Ok(below) => if env.counter >= usize::MAX {
            Err(plain(span, ErrorKind::LabelsExhausted, ""@))
        } else {
            match env.stack.last() {
                TypeView::Pointer(depth, target) => match *target {
                    TypeView::Function(in_t, out_t) => if depth == 1 {
                        match transition(below, in_t, out_t) {
                            Err(kind) => Err(transition_failure("()"@, span, below, in_t, kind)),
                            Ok(stack) => Ok(
                                (
                                    Env { stack, counter: env.counter + 1, ..env },
                                    call_pointer_text(
                                        numbered_label(
                                            context_base(block_id, "retaddr"@),
                                            env.counter + 1,
                                        ),
                                    ),
                                ),
                            ),
                        }
                    } else {
                        Err(not_a_function_pointer(span, env))
                    },
                    _ => Err(not_a_function_pointer(span, env)),
                },
                _ => Err(not_a_function_pointer(span, env)),
            }
        },
    }
}

/// The address of the function that `name` stands for. The function of the
/// context is recorded as depending on it.
pub open spec fn address_effect(span: Span, name: Seq<char>, ctx: Context, env: Env) -> Outcome {
    match resolved(ctx.usings, name, |k: Seq<char>| held(ctx.defs.signatures, k)) {
        None => Err(failure(span, ErrorKind::UnknownFunction, name, ""@, names_text(ctx.usings))),
        Some(qualified) => {
            let f = value_in(ctx.defs.signatures, qualified);
            match transition(
                env.stack,
                Seq::empty(),
                seq![TypeView::Function(f.0, f.1).add_ref()],
            ) {
                Err(kind) => Err(
                    transition_failure(
                        named_with("ptr"@, qualified),
                        span,
                        env.stack,
                        Seq::empty(),
                        kind,
                    ),
                ),
                Ok(stack) => Ok(
                    (
                        Env {
                            stack,
                            edges: env.edges.insert((ctx.function_name, qualified)),
                            ..env
                        },
                        function_address_text(function_label_of(qualified)),
                    ),
                ),
            }
        },
    }
}

/// The error of a member access that finds no pointer to a struct: it names the member and the stack.
pub open spec fn not_a_struct_pointer(span: Span, member: Seq<char>, env: Env) -> Failure {
    failure(span, ErrorKind::NotAStructPointer, member, ""@, types_text(env.stack))
}

/// The access to the member `member` of the struct that the top of the stack
/// points to: the pointer to the struct becomes a pointer to the member.
pub open spec fn member_effect(span: Span, member: Seq<char>, ctx: Context, env: Env) -> Outcome {
    if env.stack.len() == 0 {
        Err(not_a_struct_pointer(span, member, env))
    } else {
        match env.stack.last().de_ref() {
            Some(TypeView::Struct(label)) => if !held(ctx.defs.struct_defs, label) {
                Err(not_a_struct_pointer(span, member, env))
            } else if !held(value_in(ctx.defs.struct_defs, label).members, member) {
                Err(failure(span, ErrorKind::UnknownMember, member, label, ""@))
            } else {
                let (offset, member_t) = value_in(
                    value_in(ctx.defs.struct_defs, label).members,
                    member,
                );
                step(
                    env,
                    span,
                    "."@ + member,
                    seq![env.stack.last()],
                    seq![member_t.add_ref()],
                    add_offset_text(offset),
                )
            },
            _ => Err(not_a_struct_pointer(span, member, env)),
        }
    }
}

/// The access to the element of index `index` of the array that the top of
/// the stack points to.
pub open spec fn element_effect(span: Span, index: int, ctx: Context, env: Env) -> Outcome {
    match transition(env.stack, seq![pointer_to(generic_a())], seq![pointer_to(generic_a())]) {
        Err(kind) => Err(
            transition_failure(
                element_name(index),
                span,
                env.stack,
                seq![pointer_to(generic_a())],
                kind,
            ),
        ),
        Ok(stack) => if index < 0 {
            Err(plain(span, ErrorKind::InvalidSize, element_name(index)))
        } else {
            match env.stack.last().de_ref() {
                None => Err(
                    failure(
                        span,
                        ErrorKind::NotAPointer,
                        element_name(index),
                        ""@,
                        types_text(env.stack),
                    ),
                ),
                Some(element) => match size_of_type(element, ctx.defs.struct_defs) {
                    None => Err(plain(span, ErrorKind::UnknownStruct, struct_name(element))),
                    Some(size) => if index * size > usize::MAX {
                        Err(plain(span, ErrorKind::SizeOverflow, element_name(index)))
                    } else {
                        Ok((Env { stack, ..env }, add_offset_text((index * size) as nat)))
                    },
                },
            }
        },
    }
}

/// What the operator `op` does: the stack and the other state afterwards and
/// the text, or the error. `block_id` is the base of the labels that the
/// operator defines.
pub open spec fn operator_effect(block_id: Seq<char>, op: Operator, ctx: Context, env: Env) -> Outcome {
    match op {
        Operator::Add(span) => step_rules(env, span, "+"@, add_rules(), binary_text("add  "@)),
        Operator::Sub(span) => step_rules(env, span, "-"@, sub_rules(), binary_text("sub  "@)),
        Operator::BOr(span) => step(env, span, "|"@, two_numbers(), one_number(), binary_text("or   "@)),
        Operator::BAnd(span) => step(env, span, "&"@, two_numbers(), one_number(), binary_text("and  "@)),
        Operator::BNot(span) => step(env, span, "~"@, one_number(), one_number(), NOT@),
        Operator::Sshr(span) => step(env, span, ">>"@, two_numbers(), one_number(), binary_text("sshr "@)),
        Operator::Shr(span) => step(env, span, ">>>"@, two_numbers(), one_number(), binary_text("shr  "@)),
        Operator::Shl(span) => step(env, span, "<<"@, two_numbers(), one_number(), binary_text("shl  "@)),
        Operator::Xor(span) => step(env, span, "^"@, two_numbers(), one_number(), binary_text("xor  "@)),
        Operator::LOr(span) => step(
            env,
            span,
            "||"@,
            two_numbers(),
            one_number(),
            logical_or_text(block_id + "_ortrue"@),
        ),
        Operator::LAnd(span) => step(
            env,
            span,
            "&&"@,
            two_numbers(),
            one_number(),
            logical_and_text(block_id + "_andfalse"@),
        ),
        Operator::LNot(span) => step(
            env,
            span,
            "!"@,
            one_number(),
            one_number(),
            logical_not_text(block_id + "_nottrue"@),
        ),
        Operator::Eq(span) => step(
            env,
            span,
            "="@,
            seq![generic_a(), generic_a()],
            one_number(),
            comparison_text("1"@, "jz!  "@, block_id + "_opskip"@, "0"@),
        ),
        Operator::Lt(span) => step(
            env,
            span,
            "<"@,
            two_numbers(),
            one_number(),
            comparison_text("1"@, "jn!  "@, block_id + "_opskip"@, "0"@),
        ),
        Operator::Lte(span) => step(
            env,
            span,
            "<="@,
            two_numbers(),
            one_number(),
            comparison_text("0"@, "jp!  "@, block_id + "_opskip"@, "1"@),
        ),
        Operator::Gt(span) => step(
            env,
            span,
            ">"@,
            two_numbers(),
            one_number(),
            comparison_text("1"@, "jp!  "@, block_id + "_opskip"@, "0"@),
        ),
        Operator::Gte(span) => step(
            env,
            span,
            ">="@,
            two_numbers(),
            one_number(),
            comparison_text("0"@, "jn!  "@, block_id + "_opskip"@, "1"@),
        ),
        Operator::Return(span) => if env.stack == ctx.out_stack {
            Ok((env, return_jump_text(ctx.bindings.len(), ctx.out_label)))
        } else {
            Err(
                failure(
                    span,
                    ErrorKind::ReturnMismatch,
                    ""@,
                    types_text(ctx.out_stack),
                    types_text(env.stack),
                ),
            )
        },
        Operator::Ptr(span, identifier) => address_effect(span, identifier.name@, ctx, env),
        Operator::Call(span) => call_effect(block_id, span, env),
        Operator::As(span, t) => match parsed_type(
            t,
            |k: Seq<char>| held(ctx.defs.struct_defs, k),
            ctx.usings,
        ) {
            None => Err(
                failure(
                    span,
                    ErrorKind::UnknownType,
                    "as"@,
                    name_or_none(
                        unknown_in(t, |k: Seq<char>| held(ctx.defs.struct_defs, k), ctx.usings),
                    ),
                    names_text(ctx.usings),
                ),
            ),
            Some(target) => step(
                env,
                span,
                named_with("as"@, type_text(target)),
                seq![generic_a()],
                seq![target],
                Seq::empty(),
            ),
        },
        Operator::SizeOf(span, t) => match parsed_type(
            t,
            |k: Seq<char>| held(ctx.defs.struct_defs, k),
            ctx.usings,
        ) {
            None => Err(
                failure(
                    span,
                    ErrorKind::UnknownType,
                    "sizeof"@,
                    name_or_none(
                        unknown_in(t, |k: Seq<char>| held(ctx.defs.struct_defs, k), ctx.usings),
                    ),
                    names_text(ctx.usings),
                ),
            ),
            Some(target) => match size_of_type(target, ctx.defs.struct_defs) {
                None => Err(plain(span, ErrorKind::UnknownStruct, struct_name(target))),
                Some(size) => step(
                    env,
                    span,
                    named_with("sizeof"@, type_text(target)),
                    Seq::empty(),
                    one_number(),
                    push_size_text(size),
                ),
            },
        },
        Operator::StructAccess(span, member) => member_effect(span, member@, ctx, env),
        Operator::ConstArrayAccess(span, index) => element_effect(span, index.val as int, ctx, env),
        Operator::Hole(span) => Ok((env, Seq::empty())),
    }
}


/// The type of numbers.
pub fn number() -> (t: Type)
    ensures
        t@ == TypeView::U16,
{
    Type::U16
}

/// The generic type `$a`.
pub fn type_a() -> (t: Type)
    ensures
        t@ == generic_a(),
{
    Type::new_generic("$a")
}

/// The generic type `$b`.
pub fn type_b() -> (t: Type)
    ensures
        t@ == generic_b(),
{
    Type::new_generic("$b")
}

/// The generic type `$c`.
pub fn type_c() -> (t: Type)
    ensures
        t@ == generic_c(),
{
    Type::new_generic("$c")
}

/// A pointer of depth one to `t`.
pub fn pointer(t: Type) -> (p: Type)
    ensures
        p@ == pointer_to(t@),
{
    Type::Pointer(1, Box::new(t))
}

/// The list without types.
pub fn no_types() -> (v: Vec<Type>)
    ensures
        view_types(v@) == Seq::<TypeView>::empty(),
{
    let v: Vec<Type> = Vec::new();
    assert(view_types(v@) =~= Seq::<TypeView>::empty());
    v
}

/// The list of the one type.
pub fn types1(a: Type) -> (v: Vec<Type>)
    ensures
        view_types(v@) == seq![a@],
{
    let mut v: Vec<Type> = Vec::new();
    v.push(a);
    assert(view_types(v@) =~= seq![a@]);
    v
}

/// The list of the two types.
pub fn types2(a: Type, b: Type) -> (v: Vec<Type>)
    ensures
        view_types(v@) == seq![a@, b@],
{
    let mut v: Vec<Type> = Vec::new();
    v.push(a);
    v.push(b);
    assert(view_types(v@) =~= seq![a@, b@]);
    v
}

/// The list of the three types.
pub fn types3(a: Type, b: Type, c: Type) -> (v: Vec<Type>)
    ensures
        view_types(v@) == seq![a@, b@, c@],
{
    let mut v: Vec<Type> = Vec::new();
    v.push(a);
    v.push(b);
    v.push(c);
    assert(view_types(v@) =~= seq![a@, b@, c@]);
    v
}

/// The name under which an operation with an argument is reported.
pub fn name_with(word: &str, argument: &str) -> (r: String)
    ensures
        r@ == named_with(word@, argument@),
{
    let mut r = String::from_str(word);
    r.append("(");
    r.append(argument);
    r.append(")");
    r
}

/// The name under which the access to the element of an index is reported.
pub fn name_element(index: isize) -> (r: String)
    ensures
        r@ == element_name(index as int),
{
    let mut r = String::from_str("[");
    push_signed_decimal(&mut r, index);
    r.append("]");
    r
}

/// Applies the one stack effect of the operation `s`, and hands out `text`
/// where it applies. On failure the stack is left as it was.
pub fn apply(
    s: &str,
    span: &Span,
    global_state: &GlobalState,
    stack_view: &mut Stack<Type>,
    in_t: Vec<Type>,
    out_t: Vec<Type>,
    text: String,
) -> (r: Result<String, CompileError>)
    requires
        old(stack_view).wf(),
    ensures
        final(stack_view).wf(),
        emitted(
            r,
            step(
                env_of(*global_state, *old(stack_view)),
                *span,
                s@,
                view_types(in_t@),
                view_types(out_t@),
                text@,
            ),
            *global_state,
            *final(stack_view),
        ),
        r is Err ==> *final(stack_view) == *old(stack_view),
{
    match check_and_apply_stack_transition(s, span, stack_view, &in_t, &out_t) {
        Ok(_) => Ok(text),
        Err(e) => Err(e),
    }
}

/// The three stack effects of an addition or, with `distance`, of a subtraction.
fn arithmetic_rules(distance: bool) -> (rules: Vec<(Vec<Type>, Vec<Type>)>)
    ensures
        view_rules(rules@) == if distance {
            sub_rules()
        } else {
            add_rules()
        },
{
    let mut rules: Vec<(Vec<Type>, Vec<Type>)> = Vec::new();
    rules.push((types2(pointer(type_a()), number()), types1(pointer(type_a()))));
    if distance {
        rules.push((types2(pointer(type_a()), pointer(type_a())), types1(number())));
    } else {
        rules.push((types2(number(), pointer(type_a())), types1(pointer(type_a()))));
    }
    rules.push((types2(number(), number()), types1(number())));
    assert(view_rules(rules@) =~= if distance {
        sub_rules()
    } else {
        add_rules()
    });
    rules
}

/// Applies the first of the stack effects of the operation `s` that fits,
/// and hands out `text` where one does. On failure the stack is left as it was.
fn apply_rules(
    s: &str,
    span: &Span,
    global_state: &GlobalState,
    stack_view: &mut Stack<Type>,
    rules: Vec<(Vec<Type>, Vec<Type>)>,
    text: String,
) -> (r: Result<String, CompileError>)
    requires
        old(stack_view).wf(),
    ensures
        final(stack_view).wf(),
        emitted(
            r,
            step_rules(
                env_of(*global_state, *old(stack_view)),
                *span,
                s@,
                view_rules(rules@),
                text@,
            ),
            *global_state,
            *final(stack_view),
        ),
        r is Err ==> *final(stack_view) == *old(stack_view),
{
    match check_and_apply_multiple_stack_transitions(s, span, stack_view, &rules) {
        Ok(()) => Ok(text),
        Err(e) => Err(e),
    }
}

/// Emits the operator `s` that takes two numbers and leaves one.
fn emit_binary(
    s: &str,
    span: &Span,
    global_state: &GlobalState,
    stack_view: &mut Stack<Type>,
    text: String,
) -> (r: Result<String, CompileError>)
    requires
        old(stack_view).wf(),
    ensures
        final(stack_view).wf(),
        emitted(
            r,
            step(
                env_of(*global_state, *old(stack_view)),
                *span,
                s@,
                two_numbers(),
                one_number(),
                text@,
            ),
            *global_state,
            *final(stack_view),
        ),
        r is Err ==> *final(stack_view) == *old(stack_view),
{
    apply(s, span, global_state, stack_view, types2(number(), number()), types1(number()), text)
}

/// Emits the operator `s` that takes one number and leaves one.
fn emit_unary(
    s: &str,
    span: &Span,
    global_state: &GlobalState,
    stack_view: &mut Stack<Type>,
    text: String,
) -> (r: Result<String, CompileError>)
    requires
        old(stack_view).wf(),
    ensures
        final(stack_view).wf(),
        emitted(
            r,
            step(
                env_of(*global_state, *old(stack_view)),
                *span,
                s@,
                one_number(),
                one_number(),
                text@,
            ),
            *global_state,
            *final(stack_view),
        ),
        r is Err ==> *final(stack_view) == *old(stack_view),
{
    apply(s, span, global_state, stack_view, types1(number()), types1(number()), text)
}

/// Emits the call through the pointer on top of the stack. On failure the
/// states are left as they were.
fn emit_call(
    block_id: &str,
    span: &Span,
    global_state: &mut GlobalState,
    stack_view: &mut Stack<Type>,
) -> (r: Result<String, CompileError>)
    requires
        old(stack_view).wf(),
    ensures
        final(stack_view).wf(),
        same_definitions(*old(global_state), *final(global_state)),
        final(global_state).const_allocs == old(global_state).const_allocs,
        final(global_state).function_dependencies == old(global_state).function_dependencies,
        emitted(
            r,
            call_effect(block_id@, *span, env_of(*old(global_state), *old(stack_view))),
            *final(global_state),
            *final(stack_view),
        ),
        r is Err ==> *final(stack_view) == *old(stack_view) && *final(global_state) == *old(
            global_state,
        ),
{
    let saved = stack_view.clone();
    let dropped = match check_and_apply_stack_transition(
        "()",
        span,
        stack_view,
        &types1(pointer(type_a())),
        &no_types(),
    ) {
        Ok(dropped) => dropped,
        Err(e) => {
            return Err(e);
        },
    };
    assert(view_types(dropped@).len() == 1);
    assert(dropped@[0]@ == view_types(dropped@)[0]);
    assert(dropped@[0]@ == stack_types(*old(stack_view)).last());
    let mut counter = global_state.label_counter;
    let ret_label = match generate_label_with_context(block_id, "retaddr", &mut counter) {
        Some(label) => label,
        None => {
            *stack_view = saved;
            return fail_plain(span, ErrorKind::LabelsExhausted, "");
        },
    };
    match &dropped[0] {
        Type::Pointer(depth, target) => {
            assert(dropped@[0]@ == TypeView::Pointer(*depth as int, Box::new((**target)@)));
            match &**target {
                Type::Function(f) => {
                    assert((**target)@ == TypeView::Function(
                        view_types(f.in_t@),
                        view_types(f.out_t@),
                    ));
                    if *depth == 1 {
                        match check_and_apply_stack_transition(
                            "()",
                            span,
                            stack_view,
                            &f.in_t,
                            &f.out_t,
                        ) {
                            Ok(_) => {
                                global_state.label_counter = counter;
                                return Ok(call_pointer(ret_label.as_str()));
                            },
                            Err(e) => {
                                *stack_view = saved;
                                return Err(e);
                            },
                        }
                    }
                },
                _ => {},
            }
        },
        _ => {},
    }
    *stack_view = saved;
    fail(span, ErrorKind::NotAFunctionPointer, "", "", dropped[0].render().as_str())
}

/// Emits the address of the function that `name` stands for. On failure the
/// states are left as they were.
fn emit_address(
    span: &Span,
    name: &String,
    global_state: &mut GlobalState,
    function_state: &FunctionState,
    stack_view: &mut Stack<Type>,
    using_stack: &Stack<String>,
) -> (r: Result<String, CompileError>)
    requires
        old(stack_view).wf(),
    ensures
        final(stack_view).wf(),
        same_definitions(*old(global_state), *final(global_state)),
        final(global_state).const_allocs == old(global_state).const_allocs,
        final(global_state).label_counter == old(global_state).label_counter,
        emitted(
            r,
            address_effect(
                *span,
                name@,
                context_of(*old(global_state), *function_state, *using_stack),
                env_of(*old(global_state), *old(stack_view)),
            ),
            *final(global_state),
            *final(stack_view),
        ),
        r is Err ==> *final(stack_view) == *old(stack_view) && *final(global_state) == *old(
            global_state,
        ),
{
    proof {
        lemma_defined(*global_state);
    }
    let (qualified, func) = match crate::statement::find_function(
        name.as_str(),
        &global_state.function_signatures,
        using_stack,
    ) {
        Some(found) => found,
        None => {
            return fail(
                span,
                ErrorKind::UnknownFunction,
                name.as_str(),
                "",
                render_usings(using_stack).as_str(),
            );
        },
    };
    let text = function_address(function_label(qualified.as_str()).as_str());
    let produced = types1(Type::Function(func).add_ref());
    let operation = name_with("ptr", qualified.as_str());
    match check_and_apply_stack_transition(
        operation.as_str(),
        span,
        stack_view,
        &no_types(),
        &produced,
    ) {
        Ok(_) => {},
        Err(e) => {
            return Err(e);
        },
    }
    let ghost before = global_state.function_dependencies.edge_set();
    global_state.function_dependencies.add_dependency(
        function_state.function_name.clone(),
        qualified.clone(),
    );
    assert(global_state.function_dependencies.edge_set() =~= before.insert(
        (function_state.function_name@, qualified@),
    ));
    Ok(text)
}

/// Emits the access to the member `member` of the struct that the top of
/// the stack points to. On failure the stack is left as it was.
fn emit_member(
    span: &Span,
    member: &String,
    global_state: &GlobalState,
    function_state: &FunctionState,
    stack_view: &mut Stack<Type>,
    using_stack: &Stack<String>,
) -> (r: Result<String, CompileError>)
    requires
        old(stack_view).wf(),
    ensures
        final(stack_view).wf(),
        emitted(
            r,
            member_effect(
                *span,
                member@,
                context_of(*global_state, *function_state, *using_stack),
                env_of(*global_state, *old(stack_view)),
            ),
            *global_state,
            *final(stack_view),
        ),
        r is Err ==> *final(stack_view) == *old(stack_view),
{
    proof {
        lemma_defined(*global_state);
    }
    let t = match stack_view.peek() {
        Some(t) => t,
        None => {
            return fail(
                span,
                ErrorKind::NotAStructPointer,
                member.as_str(),
                "",
                render_stack(stack_view).as_str(),
            );
        },
    };
    assert(t@ == stack_types(*stack_view).last());
    let base_t = match t.de_ref() {
        Ok(base_t) => base_t,
        Err(_) => {
            return fail(
                span,
                ErrorKind::NotAStructPointer,
                member.as_str(),
                "",
                render_stack(stack_view).as_str(),
            );
        },
    };
    match base_t {
        Type::Struct(label) => {
            let struct_def = match global_state.struct_defs.get(&label) {
                Some(struct_def) => struct_def,
                None => {
                    return fail(
                        span,
                        ErrorKind::NotAStructPointer,
                        member.as_str(),
                        "",
                        render_stack(stack_view).as_str(),
                    );
                },
            };
            proof {
                struct_def.members.lemma_mapped(|entry: (usize, Type)| member_of(entry));
            }
            let entry = match struct_def.members.get(member) {
                Some(entry) => entry,
                None => {
                    return fail(
                        span,
                        ErrorKind::UnknownMember,
                        member.as_str(),
                        label.as_str(),
                        "",
                    );
                },
            };
            let text = add_offset(entry.0);
            let produced = types1(entry.1.add_ref());
            let operation = join(".", member.as_str());
            apply(operation.as_str(), span, global_state, stack_view, types1(t), produced, text)
        },
        _ => fail(
            span,
            ErrorKind::NotAStructPointer,
            member.as_str(),
            "",
            render_stack(stack_view).as_str(),
        ),
    }
}

/// Emits the access to the element of index `index` of the array that the
/// top of the stack points to. On failure the stack is left as it was.
fn emit_element(
    span: &Span,
    index: isize,
    global_state: &GlobalState,
    function_state: &FunctionState,
    stack_view: &mut Stack<Type>,
    using_stack: &Stack<String>,
) -> (r: Result<String, CompileError>)
    requires
        old(stack_view).wf(),
    ensures
        final(stack_view).wf(),
        emitted(
            r,
            element_effect(
                *span,
                index as int,
                context_of(*global_state, *function_state, *using_stack),
                env_of(*global_state, *old(stack_view)),
            ),
            *global_state,
            *final(stack_view),
        ),
        r is Err ==> *final(stack_view) == *old(stack_view),
{
    proof {
        lemma_defined(*global_state);
    }
    let saved = stack_view.clone();
    let operation = name_element(index);
    let dropped = match check_and_apply_stack_transition(
        operation.as_str(),
        span,
        stack_view,
        &types1(pointer(type_a())),
        &types1(pointer(type_a())),
    ) {
        Ok(dropped) => dropped,
        Err(e) => {
            return Err(e);
        },
    };
    assert(view_types(dropped@).len() == 1);
    assert(dropped@[0]@ == view_types(dropped@)[0]);
    assert(dropped@[0]@ == stack_types(*old(stack_view)).last());
    if index < 0 {
        *stack_view = saved;
        return fail_plain(span, ErrorKind::InvalidSize, operation.as_str());
    }
    let element = match dropped[0].de_ref() {
        Ok(element) => element,
        Err(kind) => {
            *stack_view = saved;
            return fail(span, kind, operation.as_str(), "", render_stack(stack_view).as_str());
        },
    };
    let size = match element.type_size(&global_state.struct_defs) {
        Ok(size) => size,
        Err(kind) => {
            *stack_view = saved;
            return fail_plain(span, kind, element.struct_name().as_str());
        },
    };
    match (index as usize).checked_mul(size) {
        Some(offset) => Ok(add_offset(offset)),
        None => {
            *stack_view = saved;
            fail_plain(span, ErrorKind::SizeOverflow, operation.as_str())
        },
    }
}

/// Emits a `return`: the stack must be the declared output of the function.
fn emit_return(
    span: &Span,
    global_state: &GlobalState,
    function_state: &FunctionState,
    stack_view: &Stack<Type>,
    using_stack: &Stack<String>,
) -> (r: Result<String, CompileError>)
    requires
        stack_view.wf(),
        function_state.wf(),
    ensures
        match r {
            Ok(t) => {
                &&& stack_types(*stack_view) == view_types(function_state.function_out_stack@)
                &&& t@ == return_jump_text(
                    function_state.current_bindings@.len(),
                    function_state.function_out_label@,
                )
            },
            Err(e) => {
                &&& stack_types(*stack_view) != view_types(function_state.function_out_stack@)
                &&& e@ == failure(
                    *span,
                    ErrorKind::ReturnMismatch,
                    ""@,
                    types_text(view_types(function_state.function_out_stack@)),
                    types_text(stack_types(*stack_view)),
                )
            },
        },
{
    let same = stack_view.eq_vec(&function_state.function_out_stack);
    proof {
        crate::state::lemma_eq_seq_views(stack_view@, function_state.function_out_stack@);
    }
    if !same {
        return fail(
            span,
            ErrorKind::ReturnMismatch,
            "",
            render_types(&function_state.function_out_stack).as_str(),
            render_stack(stack_view).as_str(),
        );
    }
    Ok(return_jump(function_state.function_let_bindings, function_state.function_out_label.as_str()))
}

/// Emits the operator `r`: checks its effect on the abstract stack, applies
/// it, and returns its assembly text. `block_id` is the base of the labels
/// that the operator defines. On failure the stack and the global state are
/// left as they were.
pub fn emit_operator(
    block_id: &str,
    r: &Operator,
    global_state: &mut GlobalState,
    function_state: &FunctionState,
    stack_view: &mut Stack<Type>,
    using_stack: &Stack<String>,
) -> (result: Result<String, CompileError>)
    requires
        old(stack_view).wf(),
        function_state.wf(),
    ensures
        final(stack_view).wf(),
        same_definitions(*old(global_state), *final(global_state)),
        final(global_state).const_allocs == old(global_state).const_allocs,
        emitted(
            result,
            operator_effect(
                block_id@,
                *r,
                context_of(*old(global_state), *function_state, *using_stack),
                env_of(*old(global_state), *old(stack_view)),
            ),
            *final(global_state),
            *final(stack_view),
        ),
        result is Err ==> *final(stack_view) == *old(stack_view) && *final(global_state) == *old(
            global_state,
        ),
{
    proof {
        lemma_defined(*global_state);
    }
    match r {
        Operator::Add(span) => apply_rules(
            "+",
            span,
            global_state,
            stack_view,
            arithmetic_rules(false),
            binary("add  "),
        ),
        Operator::Sub(span) => apply_rules(
            "-",
            span,
            global_state,
            stack_view,
            arithmetic_rules(true),
            binary("sub  "),
        ),
        Operator::BOr(span) => emit_binary("|", span, global_state, stack_view, binary("or   ")),
        Operator::BAnd(span) => emit_binary("&", span, global_state, stack_view, binary("and  ")),
        Operator::BNot(span) => emit_unary(
            "~",
            span,
            global_state,
            stack_view,
            String::from_str(NOT),
        ),
        Operator::Sshr(span) => emit_binary(">>", span, global_state, stack_view, binary("sshr ")),
        Operator::Shr(span) => emit_binary(">>>", span, global_state, stack_view, binary("shr  ")),
        Operator::Shl(span) => emit_binary("<<", span, global_state, stack_view, binary("shl  ")),
        Operator::Xor(span) => emit_binary("^", span, global_state, stack_view, binary("xor  ")),
        Operator::LOr(span) => emit_binary(
            "||",
            span,
            global_state,
            stack_view,
            logical_or(join(block_id, "_ortrue").as_str()),
        ),
        Operator::LAnd(span) => emit_binary(
            "&&",
            span,
            global_state,
            stack_view,
            logical_and(join(block_id, "_andfalse").as_str()),
        ),
        Operator::LNot(span) => emit_unary(
            "!",
            span,
            global_state,
            stack_view,
            logical_not(join(block_id, "_nottrue").as_str()),
        ),
        Operator::Eq(span) => apply(
            "=",
            span,
            global_state,
            stack_view,
            types2(type_a(), type_a()),
            types1(number()),
            comparison("1", "jz!  ", join(block_id, "_opskip").as_str(), "0"),
        ),
        Operator::Lt(span) => emit_binary(
            "<",
            span,
            global_state,
            stack_view,
            comparison("1", "jn!  ", join(block_id, "_opskip").as_str(), "0"),
        ),
        Operator::Lte(span) => emit_binary(
            "<=",
            span,
            global_state,
            stack_view,
            comparison("0", "jp!  ", join(block_id, "_opskip").as_str(), "1"),
        ),
        Operator::Gt(span) => emit_binary(
            ">",
            span,
            global_state,
            stack_view,
            comparison("1", "jp!  ", join(block_id, "_opskip").as_str(), "0"),
        ),
        Operator::Gte(span) => emit_binary(
            ">=",
            span,
            global_state,
            stack_view,
            comparison("0", "jn!  ", join(block_id, "_opskip").as_str(), "1"),
        ),
        Operator::Return(span) => emit_return(
            span,
            global_state,
            function_state,
            stack_view,
            using_stack,
        ),
        Operator::Ptr(span, identifier) => emit_address(
            span,
            &identifier.name,
            global_state,
            function_state,
            stack_view,
            using_stack,
        ),
        Operator::Call(span) => emit_call(block_id, span, global_state, stack_view),
        Operator::As(span, t) => {
            match Type::parse(t, &global_state.struct_defs, using_stack) {
                Err(kind) => fail(
                    span,
                    kind,
                    "as",
                    found_text(
                        Type::unknown_name(t, &global_state.struct_defs, using_stack),
                    ).as_str(),
                    render_usings(using_stack).as_str(),
                ),
                Ok(target) => apply(
                    name_with("as", target.render().as_str()).as_str(),
                    span,
                    global_state,
                    stack_view,
                    types1(type_a()),
                    types1(target),
                    String::new(),
                ),
            }
        },
        Operator::SizeOf(span, t) => {
            match Type::parse(t, &global_state.struct_defs, using_stack) {
                Err(kind) => fail(
                    span,
                    kind,
                    "sizeof",
                    found_text(
                        Type::unknown_name(t, &global_state.struct_defs, using_stack),
                    ).as_str(),
                    render_usings(using_stack).as_str(),
                ),
                Ok(target) => match target.type_size(&global_state.struct_defs) {
                    Err(kind) => fail_plain(span, kind, target.struct_name().as_str()),
                    Ok(size) => apply(
                        name_with("sizeof", target.render().as_str()).as_str(),
                        span,
                        global_state,
                        stack_view,
                        no_types(),
                        types1(number()),
                        push_size(size),
                    ),
                },
            }
        },
        Operator::StructAccess(span, member) => emit_member(
            span,
            member,
            global_state,
            function_state,
            stack_view,
            using_stack,
        ),
        Operator::ConstArrayAccess(span, index) => emit_element(
            span,
            index.val,
            global_state,
            function_state,
            stack_view,
            using_stack,
        ),
        Operator::Hole(_) => Ok(String::new()),
    }
}

} // verus!
