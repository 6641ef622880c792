//! The statements: what each does to the abstract stack, and its assembly text.

use crate::assembly::{
    binding_address, binding_address_text, call, call_text, conditional, conditional_text,
    push_label, push_label_text, push_number, push_number_text, unwind, unwind_text, while_loop,
    while_loop_text, BIND, DROP, DUP, HALT, LOAD, OVER, ROT, STORE, SWAP,
};
use crate::ast::{Block, Identifier, If, Let, Span, Statement, Unroll, While};
use crate::block::emit_block;
use crate::error::{fail, fail_plain, failure, plain, CompileError, ErrorKind, Failure};
use crate::gss::Stack;
use crate::labels::{
    const_label, const_label_of, context_base, function_label, function_label_of, generate_label,
    generate_label_with_context, global_label, global_label_of, numbered_label,
};
use crate::render::{names_text, render_usings, type_text, types_text};
use crate::operator::{
    apply, emit_operator, generic_a, generic_b, generic_c, no_types, number,
    operator_effect, pointer, pointer_to, step, type_a, type_b, type_c, types1, types2, types3,
};
use crate::scope::{find_name, prefixes, resolved};
use crate::sizes::{DefView, size_of_type, struct_name, TypeSize, view_definitions};
use crate::state::{
    context_of, defined_of, emitted, env_of, lemma_defined, lemma_eq_seq_views, ready,
    same_definitions, same_function, view_bindings, Context, Env, FunctionState, GlobalState,
    Outcome,
};
use crate::table::{held, value_in, NameTable};
use crate::type_check::{
    check_and_apply_stack_transition, render_stack, stack_types, transition, transition_failure,
};
use crate::types::{FunctionType, Type, TypeView};
use std::rc::Rc;
use vstd::prelude::*;
use vstd::string::StringExecFns;

verus! {

/// The global variable that `s` stands for: its qualified name and its type.
pub fn find_global(
    s: &str,
    globals: &NameTable<(Type, isize, isize)>,
    using_stack: &Stack<String>,
) -> (r: Option<(String, Type)>)
    ensures
        match r {
            Some((name, t)) => {
                &&& resolved(prefixes(*using_stack), s@, |k: Seq<char>| globals.has(k)) == Some(name@)
                &&& globals.has(name@)
                &&& t@ == globals.value(name@).0@
            },
            None => resolved(prefixes(*using_stack), s@, |k: Seq<char>| globals.has(k)) is None,
        },
{
    match find_name(s, globals, using_stack) {
        Some(name) => {
            proof {
                crate::scope::lemma_resolve_name(
                    crate::table::names_of(using_stack@),
                    s@,
                    |k: Seq<char>| globals.has(k),
                    using_stack@.len(),
                );
            }
            match globals.get(&name) {
                Some(entry) => Some((name, entry.0.clone())),
                None => None,
            }
        },
        None => None,
    }
}

/// The function that `s` stands for: its qualified name and its stack effect.
pub fn find_function(
    s: &str,
    function_signatures: &NameTable<FunctionType>,
    using_stack: &Stack<String>,
) -> (r: Option<(String, FunctionType)>)
    ensures
        match r {
            Some((name, f)) => {
                &&& resolved(prefixes(*using_stack), s@, |k: Seq<char>| function_signatures.has(k)) == Some(
                    name@,
                )
                &&& function_signatures.has(name@)
                &&& f@ == function_signatures.value(name@)@
            },
            None => resolved(prefixes(*using_stack), s@, |k: Seq<char>| function_signatures.has(k)) is None,
        },
{
    match find_name(s, function_signatures, using_stack) {
        Some(name) => {
            proof {
                crate::scope::lemma_resolve_name(
                    crate::table::names_of(using_stack@),
                    s@,
                    |k: Seq<char>| function_signatures.has(k),
                    using_stack@.len(),
                );
            }
            match function_signatures.get(&name) {
                Some(f) => Some((name, f.clone())),
                None => None,
            }
        },
        None => None,
    }
}

/// The statement that takes the place of the inline definition that `s` stands for.
pub fn find_inline(s: &str, inlines: &NameTable<Rc<Statement>>, using_stack: &Stack<String>) -> (r:
    Option<Rc<Statement>>)
    ensures
        match r {
            Some(statement) => {
                &&& resolved(prefixes(*using_stack), s@, |k: Seq<char>| inlines.has(k)) is Some
                &&& inlines.has(resolved(prefixes(*using_stack), s@, |k: Seq<char>| inlines.has(k))->0)
                &&& statement == inlines.value(
                    resolved(prefixes(*using_stack), s@, |k: Seq<char>| inlines.has(k))->0,
                )
            },
            None => resolved(prefixes(*using_stack), s@, |k: Seq<char>| inlines.has(k)) is None,
        },
{
    match find_name(s, inlines, using_stack) {
        Some(name) => {
            proof {
                crate::scope::lemma_resolve_name(
                    crate::table::names_of(using_stack@),
                    s@,
                    |k: Seq<char>| inlines.has(k),
                    using_stack@.len(),
                );
            }
            match inlines.get(&name) {
                Some(statement) => Some(statement.clone()),
                None => None,
            }
        },
        None => None,
    }
}


/// The binding of `name` among the first `n` bindings, the innermost first:
/// its offset from the return stack pointer and its type. The offset of a
/// binding is the sum of the sizes of the bindings that lie above it. `None`
/// where no binding has the name; an error where a size on the way is not
/// known or the sum is too large: its kind, and the name of the struct
/// without a size or of the binding looked for.
pub open spec fn binding_of(
    bindings: Seq<(Seq<char>, TypeView)>,
    name: Seq<char>,
    structs: Seq<(Seq<char>, DefView)>,
    n: nat,
    offset: nat,
) -> Result<Option<(nat, TypeView)>, (ErrorKind, Seq<char>)>
    decreases n,
{
    if n == 0 || n > bindings.len() {
        Ok(None)
    } else if bindings[n - 1].0 == name {
        Ok(Some((offset, bindings[n - 1].1)))
    } else {
        match size_of_type(bindings[n - 1].1, structs) {
            None => Err((ErrorKind::UnknownStruct, struct_name(bindings[n - 1].1))),
            Some(size) => if offset + size > usize::MAX {
                Err((ErrorKind::SizeOverflow, name))
            } else {
                binding_of(bindings, name, structs, (n - 1) as nat, offset + size)
            },
        }
    }
}

/// The text `piece` `n` times in a row.
pub open spec fn repeated(piece: Seq<char>, n: nat) -> Seq<char>
    decreases n,
{
    if n == 0 {
        Seq::empty()
    } else {
        repeated(piece, (n - 1) as nat) + piece
    }
}

/// The bindings that a `let` with the names `names` makes from the stack
/// `stack`: the last name takes the top item, the one before it the item
/// below, and so on; the bindings are listed in the order in which they are
/// made.
pub open spec fn bound(names: Seq<Identifier>, stack: Seq<TypeView>) -> Seq<(Seq<char>, TypeView)> {
    Seq::new(
        names.len(),
        |j: int| (names[names.len() - 1 - j].name@, stack[stack.len() - 1 - j]),
    )
}

/// Whether a value of type `t` can serve as a condition: numbers and pointers can.
pub open spec fn is_condition(t: TypeView) -> bool {
    t is Pointer || t is U16
}

/// What the built-in word `name` does, or `None` where `name` is no built-in word.
pub open spec fn builtin_effect(name: Seq<char>, span: Span, env: Env) -> Option<Outcome> {
    if name == "dup"@ {
        Some(step(env, span, name, seq![generic_a()], seq![generic_a(), generic_a()], DUP@))
    } else if name == "over"@ {
        Some(
            step(
                env,
                span,
                name,
                seq![generic_a(), generic_b()],
                seq![generic_a(), generic_b(), generic_a()],
                OVER@,
            ),
        )
    } else if name == "swap"@ {
        Some(
            step(
                env,
                span,
                name,
                seq![generic_a(), generic_b()],
                seq![generic_b(), generic_a()],
                SWAP@,
            ),
        )
    } else if name == "rot"@ {
        Some(
            step(
                env,
                span,
                name,
                seq![generic_a(), generic_b(), generic_c()],
                seq![generic_b(), generic_c(), generic_a()],
                ROT@,
            ),
        )
    } else if name == "halt"@ {
        Some(Ok((env, HALT@)))
    } else if name == "drop"@ {
        Some(step(env, span, name, seq![generic_a()], Seq::empty(), DROP@))
    } else if name == "load"@ {
        Some(step(env, span, name, seq![pointer_to(generic_a())], seq![generic_a()], LOAD@))
    } else if name == "store"@ {
        Some(
            step(env, span, name, seq![generic_a(), pointer_to(generic_a())], Seq::empty(), STORE@),
        )
    } else {
        None
    }
}

/// The call of the function `qualified`: its declared effect is applied to
/// the stack, and the function of the context is recorded as depending on it.
pub open spec fn function_call_effect(
    block_id: Seq<char>,
    span: Span,
    qualified: Seq<char>,
    ctx: Context,
    env: Env,
) -> Outcome {
    let f = value_in(ctx.defs.signatures, qualified);
    if env.counter >= usize::MAX {
        Err(plain(span, ErrorKind::LabelsExhausted, ""@))
    } else {
        match transition(env.stack, f.0, f.1) {
            Err(kind) => Err(transition_failure(qualified, span, env.stack, f.0, kind)),
            Ok(stack) => Ok(
                (
                    Env {
                        stack,
                        counter: env.counter + 1,
                        edges: env.edges.insert((ctx.function_name, qualified)),
                        ..env
                    },
                    call_text(
                        numbered_label(context_base(block_id, "retaddr"@), env.counter + 1),
                        function_label_of(qualified),
                    ),
                ),
            ),
        }
    }
}

/// What a name that is no built-in word stands for.
pub enum Named {
    /// A binding, a global or a function, or nothing at all: the outcome is known.
    Plain(Outcome),
    /// The inline definition of this qualified name.
    Inline(Seq<char>),
}

/// What a name that is no built-in word does. The name stands for the first
/// of these that exists: a `let` binding in scope, the innermost first; a
/// global variable; an inline definition; a function. A binding and a global
/// leave their address, and a function is called.
pub open spec fn name_effect(block_id: Seq<char>, identifier: Identifier, ctx: Context, env: Env) -> Named {
    let name = identifier.name@;
    let span = identifier.span;
    match binding_of(ctx.bindings, name, ctx.defs.struct_defs, ctx.bindings.len(), 0) {
        Err((kind, subject)) => Named::Plain(Err(plain(span, kind, subject))),
        Ok(Some((offset, t))) => Named::Plain(
            step(env, span, name, Seq::empty(), seq![t.add_ref()], binding_address_text(offset)),
        ),
        Ok(None) => match resolved(ctx.usings, name, |k: Seq<char>| held(ctx.defs.globals, k)) {
            Some(qualified) => Named::Plain(
                step(
                    env,
                    span,
                    name,
                    Seq::empty(),
                    seq![value_in(ctx.defs.globals, qualified).0.add_ref()],
                    push_label_text(global_label_of(qualified)),
                ),
            ),
            None => match resolved(ctx.usings, name, |k: Seq<char>| held(ctx.defs.inlines, k)) {
                Some(qualified) => Named::Inline(qualified),
                None => match resolved(
                    ctx.usings,
                    name,
                    |k: Seq<char>| held(ctx.defs.signatures, k),
                ) {
                    Some(qualified) => Named::Plain(
                        function_call_effect(block_id, span, qualified, ctx, env),
                    ),
                    None => Named::Plain(
                        Err(
                            failure(
                                span,
                                ErrorKind::UnknownFunction,
                                name,
                                ""@,
                                names_text(ctx.usings),
                            ),
                        ),
                    ),
                },
            },
        },
    }
}

/// What a conditional does. The condition is taken off the stack. Both arms
/// start from the stack below it, and both must leave the same stack; without
/// an `else` the first arm must leave the stack as it found it.
pub open spec fn if_effect(block_id: Seq<char>, i: If, ctx: Context, env: Env, depth: nat) -> Outcome
    decreases depth, i, 0nat,
{
    if env.counter + 3 > usize::MAX {
        Err(plain(i.span, ErrorKind::LabelsExhausted, ""@))
    } else if env.stack.len() == 0 {
        Err(plain(i.span, ErrorKind::ConditionMissing, "if"@))
    } else if !is_condition(env.stack.last()) {
        Err(failure(i.span, ErrorKind::ConditionType, "if"@, ""@, type_text(env.stack.last())))
    } else {
        let if_id = numbered_label(context_base(block_id, "if"@), env.counter + 1);
        let else_id = numbered_label(context_base(block_id, "else"@), env.counter + 2);
        let exit_id = numbered_label(context_base(block_id, "if_exit"@), env.counter + 3);
        let below = env.stack.drop_last();
        match block_effect(
            if_id,
            i.if_block,
            ctx,
            Env { stack: below, counter: env.counter + 3, ..env },
            depth,
            i.if_block.body@.len(),
        ) {
            Err(e) => Err(e),
            Ok((after_if, if_text)) => {
                let other = match i.else_block {
                    None => Ok((Env { stack: below, ..after_if }, Seq::empty())),
                    Some(else_block) => block_effect(
                        else_id,
                        else_block,
                        ctx,
                        Env { stack: below, ..after_if },
                        depth,
                        else_block.body@.len(),
                    ),
                };
                match other {
                    Err(e) => Err(e),
                    Ok((after_else, else_text)) => if after_if.stack == after_else.stack {
                        Ok(
                            (
                                after_else,
                                conditional_text(if_id, else_id, exit_id, if_text, else_text),
                            ),
                        )
                    } else {
                        Err(
                            failure(
                                i.span,
                                ErrorKind::BranchMismatch,
                                ""@,
                                types_text(after_if.stack),
                                types_text(after_else.stack),
                            ),
                        )
                    },
                }
            },
        }
    }
}

/// What a loop does. The condition block runs first and leaves the
/// condition, which is taken off. The body starts from the stack below it and
/// must leave the stack with which the loop was entered. The loop as a whole
/// leaves the stack below the condition.
pub open spec fn while_effect(block_id: Seq<char>, w: While, ctx: Context, env: Env, depth: nat) -> Outcome
    decreases depth, w, 0nat,
{
    if env.counter + 3 > usize::MAX {
        Err(plain(w.span, ErrorKind::LabelsExhausted, ""@))
    } else {
        let eval_id = numbered_label(context_base(block_id, "while_eval"@), env.counter + 1);
        let body_id = numbered_label(context_base(block_id, "while_body"@), env.counter + 2);
        let exit_id = numbered_label(context_base(block_id, "while_exit"@), env.counter + 3);
        match block_effect(
            eval_id,
            w.eval,
            ctx,
            Env { counter: env.counter + 3, ..env },
            depth,
            w.eval.body@.len(),
        ) {
            Err(e) => Err(e),
            Ok((after_eval, eval_text)) => if after_eval.stack.len() == 0 {
                Err(plain(w.span, ErrorKind::ConditionMissing, "while"@))
            } else if !is_condition(after_eval.stack.last()) {
                Err(
                    failure(
                        w.span,
                        ErrorKind::ConditionType,
                        "while"@,
                        ""@,
                        type_text(after_eval.stack.last()),
                    ),
                )
            } else {
                let below = after_eval.stack.drop_last();
                match block_effect(
                    body_id,
                    w.body,
                    ctx,
                    Env { stack: below, ..after_eval },
                    depth,
                    w.body.body@.len(),
                ) {
                    Err(e) => Err(e),
                    Ok((after_body, body_text)) => if after_body.stack == env.stack {
                        Ok(
                            (
                                Env { stack: below, ..after_body },
                                while_loop_text(eval_id, body_id, exit_id, eval_text, body_text),
                            ),
                        )
                    } else {
                        Err(
                            failure(
                                w.span,
                                ErrorKind::LoopMismatch,
                                ""@,
                                types_text(env.stack),
                                types_text(after_body.stack),
                            ),
                        )
                    },
                }
            },
        }
    }
}

/// What a `let` does. One item is taken off the stack for each name, the
/// last name taking the top item. The body runs with the new bindings in
/// scope, above those of the context, and the bindings end with the body.
pub open spec fn let_effect(block_id: Seq<char>, l: Let, ctx: Context, env: Env, depth: nat) -> Outcome
    decreases depth, l, 0nat,
{
    let n = l.bindings@.len();
    if env.stack.len() < n {
        Err(
            plain(
                l.span,
                ErrorKind::BindingMissing,
                l.bindings@[n - 1 - env.stack.len()].name@,
            ),
        )
    } else if env.counter >= usize::MAX {
        Err(plain(l.span, ErrorKind::LabelsExhausted, ""@))
    } else {
        let inner_id = numbered_label(context_base(block_id, "let_inner"@), env.counter + 1);
        match block_effect(
            inner_id,
            l.body,
            Context { bindings: ctx.bindings + bound(l.bindings@, env.stack), ..ctx },
            Env { stack: env.stack.take(env.stack.len() - n), counter: env.counter + 1, ..env },
            depth,
            l.body.body@.len(),
        ) {
            Err(e) => Err(e),
            Ok((after, body_text)) => Ok(
                (after, repeated(BIND@, n) + body_text + unwind_text(n)),
            ),
        }
    }
}

/// What the body of an unrolled loop does when it is emitted `k` times in a row.
pub open spec fn unroll_effect(
    block_id: Seq<char>,
    u: Unroll,
    ctx: Context,
    env: Env,
    depth: nat,
    k: nat,
) -> Outcome
    decreases depth, u, k,
{
    if k == 0 {
        Ok((env, Seq::empty()))
    } else {
        match unroll_effect(block_id, u, ctx, env, depth, (k - 1) as nat) {
            Err(e) => Err(e),
            Ok((before, text)) => if before.counter >= usize::MAX {
                Err(plain(u.span, ErrorKind::LabelsExhausted, ""@))
            } else {
                match block_effect(
                    numbered_label(block_id, before.counter + 1),
                    u.body,
                    ctx,
                    Env { counter: before.counter + 1, ..before },
                    depth,
                    u.body.body@.len(),
                ) {
                    Err(e) => Err(e),
                    Ok((after, once)) => Ok((after, text + once)),
                }
            },
        }
    }
}

/// What the first `n` statements of the block do, one after the other.
pub open spec fn block_effect(
    block_id: Seq<char>,
    b: Block,
    ctx: Context,
    env: Env,
    depth: nat,
    n: nat,
) -> Outcome
    decreases depth, b, n,
{
    if n == 0 || n > b.body@.len() {
        Ok((env, Seq::empty()))
    } else {
        match block_effect(block_id, b, ctx, env, depth, (n - 1) as nat) {
            Err(e) => Err(e),
            Ok((before, text)) => match statement_effect(
                block_id,
                b.body@[n - 1],
                ctx,
                before,
                depth,
            ) {
                Err(e) => Err(e),
                Ok((after, one)) => Ok((after, text + one)),
            },
        }
    }
}

/// What the statement does in the context `ctx` from the state `env`: the
/// state afterwards and the assembly text, or the place and kind of the first
/// error. `block_id` is the base of the labels that the statement defines, and
/// `depth` bounds how deep inline definitions may expand into one another.
pub open spec fn statement_effect(
    block_id: Seq<char>,
    s: Statement,
    ctx: Context,
    env: Env,
    depth: nat,
) -> Outcome
    decreases depth, s, 1nat,
{
    match s {
        Statement::IntLiteral(literal) => step(
            env,
            literal.span,
            "literal"@,
            Seq::empty(),
            seq![TypeView::U16],
            push_number_text(literal.val as int),
        ),
        Statement::BoolLiteral(literal) => step(
            env,
            literal.span,
            "literal"@,
            Seq::empty(),
            seq![TypeView::Bool],
            push_number_text(literal.val as int),
        ),
        Statement::IntArray(array) => if env.arena.id >= usize::MAX {
            Err(plain(array.span, ErrorKind::LabelsExhausted, ""@))
        } else {
            step(
                Env { arena: env.arena.allocate(array.val@), ..env },
                array.span,
                "array"@,
                Seq::empty(),
                seq![pointer_to(TypeView::U16)],
                push_label_text(const_label_of(env.arena.next_name())),
            )
        },
        Statement::Identifier(identifier) => match builtin_effect(
            identifier.name@,
            identifier.span,
            env,
        ) {
            Some(outcome) => outcome,
            None => match name_effect(block_id, identifier, ctx, env) {
                Named::Plain(outcome) => outcome,
                Named::Inline(qualified) => if depth == 0 {
                    Err(plain(identifier.span, ErrorKind::InlineDepth, identifier.name@))
                } else {
                    statement_effect(
                        block_id,
                        *value_in(ctx.defs.inlines, qualified),
                        ctx,
                        env,
                        (depth - 1) as nat,
                    )
                },
            },
        },
        Statement::Operator(op) => if env.counter >= usize::MAX {
            Err(plain(op.place(), ErrorKind::LabelsExhausted, ""@))
        } else {
            operator_effect(
                numbered_label(context_base(block_id, "operator"@), env.counter + 1),
                op,
                ctx,
                Env { counter: env.counter + 1, ..env },
            )
        },
        Statement::Block(b) => if env.counter >= usize::MAX {
            Err(plain(b.span, ErrorKind::LabelsExhausted, ""@))
        } else {
            block_effect(
                numbered_label(block_id, env.counter + 1),
                b,
                ctx,
                Env { counter: env.counter + 1, ..env },
                depth,
                b.body@.len(),
            )
        },
        Statement::Unroll(u) => unroll_effect(
            block_id,
            u,
            ctx,
            env,
            depth,
            if u.times.val > 0 {
                u.times.val as nat
            } else {
                0
            },
        ),
        Statement::If(i) => if_effect(block_id, i, ctx, env, depth),
        Statement::While(w) => while_effect(block_id, w, ctx, env, depth),
        Statement::Let(l) => let_effect(block_id, l, ctx, env, depth),
    }
}


/// Once a prefix of a block fails, every longer prefix fails in the same way.
pub proof fn lemma_block_fails(
    block_id: Seq<char>,
    b: Block,
    ctx: Context,
    env: Env,
    depth: nat,
    n: nat,
    m: nat,
)
    requires
        block_effect(block_id, b, ctx, env, depth, n) is Err,
        n <= m <= b.body@.len(),
    ensures
        block_effect(block_id, b, ctx, env, depth, m) == block_effect(
            block_id,
            b,
            ctx,
            env,
            depth,
            n,
        ),
    decreases m,
{
    if n < m {
        lemma_block_fails(block_id, b, ctx, env, depth, n, (m - 1) as nat);
    }
}

/// Once some number of rounds of an unrolled loop fails, every greater number fails in the same way.
pub proof fn lemma_unroll_fails(
    block_id: Seq<char>,
    u: Unroll,
    ctx: Context,
    env: Env,
    depth: nat,
    n: nat,
    m: nat,
)
    requires
        unroll_effect(block_id, u, ctx, env, depth, n) is Err,
        n <= m,
    ensures
        unroll_effect(block_id, u, ctx, env, depth, m) == unroll_effect(
            block_id,
            u,
            ctx,
            env,
            depth,
            n,
        ),
    decreases m,
{
    if n < m {
        lemma_unroll_fails(block_id, u, ctx, env, depth, n, (m - 1) as nat);
    }
}

/// Emits the built-in word `name`, or returns `None` where `name` is none.
fn emit_builtin(name: &String, span: &Span, global_state: &GlobalState, stack_view: &mut Stack<Type>) -> (r:
    Option<Result<String, CompileError>>)
    requires
        old(stack_view).wf(),
    ensures
        final(stack_view).wf(),
        match builtin_effect(name@, *span, env_of(*global_state, *old(stack_view))) {
            Some(outcome) => r is Some && emitted(r->0, outcome, *global_state, *final(stack_view)),
            None => r is None && *final(stack_view) == *old(stack_view),
        },
{
    if *name == String::from_str("dup") {
        Some(
            apply(
                "dup",
                span,
                global_state,
                stack_view,
                types1(type_a()),
                types2(type_a(), type_a()),
                String::from_str(DUP),
            ),
        )
    } else if *name == String::from_str("over") {
        Some(
            apply(
                "over",
                span,
                global_state,
                stack_view,
                types2(type_a(), type_b()),
                types3(type_a(), type_b(), type_a()),
                String::from_str(OVER),
            ),
        )
    } else if *name == String::from_str("swap") {
        Some(
            apply(
                "swap",
                span,
                global_state,
                stack_view,
                types2(type_a(), type_b()),
                types2(type_b(), type_a()),
                String::from_str(SWAP),
            ),
        )
    } else if *name == String::from_str("rot") {
        Some(
            apply(
                "rot",
                span,
                global_state,
                stack_view,
                types3(type_a(), type_b(), type_c()),
                types3(type_b(), type_c(), type_a()),
                String::from_str(ROT),
            ),
        )
    } else if *name == String::from_str("halt") {
        Some(Ok(String::from_str(HALT)))
    } else if *name == String::from_str("drop") {
        Some(
            apply(
                "drop",
                span,
                global_state,
                stack_view,
                types1(type_a()),
                no_types(),
                String::from_str(DROP),
            ),
        )
    } else if *name == String::from_str("load") {
        Some(
            apply(
                "load",
                span,
                global_state,
                stack_view,
                types1(pointer(type_a())),
                types1(type_a()),
                String::from_str(LOAD),
            ),
        )
    } else if *name == String::from_str("store") {
        Some(
            apply(
                "store",
                span,
                global_state,
                stack_view,
                types2(type_a(), pointer(type_a())),
                no_types(),
                String::from_str(STORE),
            ),
        )
    } else {
        None
    }
}

/// Looks for the binding of `name`, the innermost first.
fn find_binding(name: &String, function_state: &FunctionState, global_state: &GlobalState) -> (r:
    Result<Option<(usize, Type)>, (ErrorKind, String)>)
    ensures
        match r {
            Ok(Some((offset, t))) => binding_of(
                view_bindings(function_state.current_bindings@),
                name@,
                view_definitions(global_state.struct_defs),
                function_state.current_bindings@.len(),
                0,
            ) == Ok::<Option<(nat, TypeView)>, (ErrorKind, Seq<char>)>(Some((offset as nat, t@))),
            Ok(None) => binding_of(
                view_bindings(function_state.current_bindings@),
                name@,
                view_definitions(global_state.struct_defs),
                function_state.current_bindings@.len(),
                0,
            ) == Ok::<Option<(nat, TypeView)>, (ErrorKind, Seq<char>)>(None),
            Err(e) => binding_of(
                view_bindings(function_state.current_bindings@),
                name@,
                view_definitions(global_state.struct_defs),
                function_state.current_bindings@.len(),
                0,
            ) == Err::<Option<(nat, TypeView)>, (ErrorKind, Seq<char>)>((e.0, e.1@)),
        },
{
    let ghost bindings = view_bindings(function_state.current_bindings@);
    let mut offset: usize = 0;
    let mut i: usize = function_state.current_bindings.len();
    while i > 0
        invariant
            i <= function_state.current_bindings@.len(),
            bindings == view_bindings(function_state.current_bindings@),
            binding_of(
                bindings,
                name@,
                view_definitions(global_state.struct_defs),
                function_state.current_bindings@.len(),
                0,
            ) == binding_of(
                bindings,
                name@,
                view_definitions(global_state.struct_defs),
                i as nat,
                offset as nat,
            ),
        decreases i,
    {
        let entry = &function_state.current_bindings[i - 1];
        assert(bindings[i - 1] == (entry.0@, entry.1@));
        if entry.0 == *name {
            return Ok(Some((offset, entry.1.clone())));
        }
        match entry.1.type_size(&global_state.struct_defs) {
            Err(kind) => {
                return Err((kind, entry.1.struct_name()));
            },
            Ok(size) => {
                if size > usize::MAX - offset {
                    return Err((ErrorKind::SizeOverflow, name.clone()));
                }
                offset = offset + size;
            },
        }
        i -= 1;
    }
    Ok(None)
}

/// Emits the call of the function `qualified`, whose stack effect is `func`.
fn emit_function_call(
    block_id: &str,
    span: &Span,
    qualified: String,
    func: FunctionType,
    global_state: &mut GlobalState,
    function_state: &FunctionState,
    stack_view: &mut Stack<Type>,
    using_stack: &Stack<String>,
) -> (r: Result<String, CompileError>)
    requires
        old(stack_view).wf(),
        func@ == value_in(defined_of(*old(global_state)).signatures, qualified@),
    ensures
        final(stack_view).wf(),
        same_definitions(*old(global_state), *final(global_state)),
        final(global_state).const_allocs == old(global_state).const_allocs,
        emitted(
            r,
            function_call_effect(
                block_id@,
                *span,
                qualified@,
                context_of(*old(global_state), *function_state, *using_stack),
                env_of(*old(global_state), *old(stack_view)),
            ),
            *final(global_state),
            *final(stack_view),
        ),
{
    let mut counter = global_state.label_counter;
    let ret_label = match generate_label_with_context(block_id, "retaddr", &mut counter) {
        Some(label) => label,
        None => {
            return fail_plain(span, ErrorKind::LabelsExhausted, "");
        },
    };
    match check_and_apply_stack_transition(
        qualified.as_str(),
        span,
        stack_view,
        &func.in_t,
        &func.out_t,
    ) {
        Ok(_) => {},
        Err(e) => {
            return Err(e);
        },
    }
    global_state.label_counter = counter;
    let text = call(ret_label.as_str(), function_label(qualified.as_str()).as_str());
    let ghost before = global_state.function_dependencies.edge_set();
    global_state.function_dependencies.add_dependency(
        function_state.function_name.clone(),
        qualified.clone(),
    );
    assert(global_state.function_dependencies.edge_set() =~= before.insert(
        (function_state.function_name@, qualified@),
    ));
    Ok(text)
}

/// What the emission of a name gives.
pub enum Expansion {
    /// The text of a binding, a global or a call.
    Text(String),
    /// The statement of an inline definition, still to be emitted.
    Inline(Rc<Statement>),
}

/// Emits a name that is no built-in word, or hands out the statement of the
/// inline definition that the name stands for.
fn emit_name(
    block_id: &str,
    identifier: &Identifier,
    global_state: &mut GlobalState,
    function_state: &FunctionState,
    stack_view: &mut Stack<Type>,
    using_stack: &Stack<String>,
) -> (r: Result<Expansion, CompileError>)
    requires
        old(stack_view).wf(),
    ensures
        final(stack_view).wf(),
        same_definitions(*old(global_state), *final(global_state)),
        final(global_state).const_allocs == old(global_state).const_allocs,
        match name_effect(
            block_id@,
            *identifier,
            context_of(*old(global_state), *function_state, *using_stack),
            env_of(*old(global_state), *old(stack_view)),
        ) {
            Named::Plain(outcome) => match r {
                Ok(Expansion::Text(text)) => outcome == Ok::<(Env, Seq<char>), Failure>(
                    (env_of(*final(global_state), *final(stack_view)), text@),
                ),
                Ok(Expansion::Inline(_)) => false,
                Err(e) => outcome == Err::<(Env, Seq<char>), Failure>(e@),
            },
            Named::Inline(qualified) => {
                &&& r matches Ok(Expansion::Inline(statement))
                &&& statement == value_in(defined_of(*old(global_state)).inlines, qualified)
                &&& *final(global_state) == *old(global_state)
                &&& *final(stack_view) == *old(stack_view)
            },
        },
{
    let span = &identifier.span;
    proof {
        lemma_defined(*global_state);
    }
    match find_binding(&identifier.name, function_state, global_state) {
        Err((kind, subject)) => {
            return fail_plain(span, kind, subject.as_str());
        },
        Ok(Some((offset, t))) => {
            return match apply(
                identifier.name.as_str(),
                span,
                global_state,
                stack_view,
                no_types(),
                types1(t.add_ref()),
                binding_address(offset),
            ) {
                Ok(text) => Ok(Expansion::Text(text)),
                Err(e) => Err(e),
            };
        },
        Ok(None) => {},
    }
    if let Some((qualified, t)) = find_global(
        identifier.name.as_str(),
        &global_state.globals,
        using_stack,
    ) {
        return match apply(
            identifier.name.as_str(),
            span,
            global_state,
            stack_view,
            no_types(),
            types1(t.add_ref()),
            push_label(global_label(qualified.as_str()).as_str()),
        ) {
            Ok(text) => Ok(Expansion::Text(text)),
            Err(e) => Err(e),
        };
    }
    if let Some(statement) = find_inline(
        identifier.name.as_str(),
        &global_state.inlines,
        using_stack,
    ) {
        return Ok(Expansion::Inline(statement));
    }
    match find_function(identifier.name.as_str(), &global_state.function_signatures, using_stack) {
        Some((qualified, func)) => {
            match emit_function_call(
                block_id,
                span,
                qualified,
                func,
                global_state,
                function_state,
                stack_view,
                using_stack,
            ) {
                Ok(text) => Ok(Expansion::Text(text)),
                Err(e) => Err(e),
            }
        },
        None => fail(
            span,
            ErrorKind::UnknownFunction,
            identifier.name.as_str(),
            "",
            render_usings(using_stack).as_str(),
        ),
    }
}

/// Takes the condition of the statement `word` off the stack: a number or
/// a pointer. On failure the stack is left as it was.
fn pop_condition(word: &str, span: &Span, stack_view: &mut Stack<Type>) -> (r: Result<
    (),
    CompileError,
>)
    requires
        old(stack_view).wf(),
    ensures
        final(stack_view).wf(),
        match r {
            Ok(()) => {
                &&& stack_types(*old(stack_view)).len() > 0
                &&& is_condition(stack_types(*old(stack_view)).last())
                &&& stack_types(*final(stack_view)) == stack_types(*old(stack_view)).drop_last()
            },
            Err(e) => {
                &&& *final(stack_view) == *old(stack_view)
                &&& if stack_types(*old(stack_view)).len() == 0 {
                    e@ == plain(*span, ErrorKind::ConditionMissing, word@)
                } else {
                    !is_condition(stack_types(*old(stack_view)).last()) && e@ == failure(
                        *span,
                        ErrorKind::ConditionType,
                        word@,
                        ""@,
                        type_text(stack_types(*old(stack_view)).last()),
                    )
                }
            },
        },
{
    match stack_view.peek() {
        None => fail_plain(span, ErrorKind::ConditionMissing, word),
        Some(t) => {
            assert(t@ == stack_types(*old(stack_view)).last());
            match t {
                Type::Pointer(_, _) => {},
                Type::U16 => {},
                _ => {
                    return fail(span, ErrorKind::ConditionType, word, "", t.render().as_str());
                },
            }
            let _ = stack_view.pop();
            assert(stack_types(*stack_view) =~= stack_types(*old(stack_view)).drop_last());
            Ok(())
        },
    }
}

/// Three fresh labels under `block_id`, for the three contexts.
fn three_labels(
    block_id: &str,
    first: &str,
    second: &str,
    third: &str,
    span: &Span,
    global_state: &mut GlobalState,
) -> (r: Result<(String, String, String), CompileError>)
    ensures
        same_definitions(*old(global_state), *final(global_state)),
        final(global_state).const_allocs == old(global_state).const_allocs,
        final(global_state).function_dependencies == old(global_state).function_dependencies,
        match r {
            Ok((a, b, c)) => {
                &&& old(global_state).label_counter + 3 <= usize::MAX
                &&& final(global_state).label_counter == old(global_state).label_counter + 3
                &&& a@ == numbered_label(
                    context_base(block_id@, first@),
                    (old(global_state).label_counter + 1) as nat,
                )
                &&& b@ == numbered_label(
                    context_base(block_id@, second@),
                    (old(global_state).label_counter + 2) as nat,
                )
                &&& c@ == numbered_label(
                    context_base(block_id@, third@),
                    (old(global_state).label_counter + 3) as nat,
                )
            },
            Err(e) => {
                &&& old(global_state).label_counter + 3 > usize::MAX
                &&& e@ == plain(*span, ErrorKind::LabelsExhausted, ""@)
                &&& *final(global_state) == *old(global_state)
            },
        },
{
    if global_state.label_counter > usize::MAX - 3 {
        return fail_plain(span, ErrorKind::LabelsExhausted, "");
    }
    let mut counter = global_state.label_counter;
    let a = generate_label_with_context(block_id, first, &mut counter).unwrap();
    let b = generate_label_with_context(block_id, second, &mut counter).unwrap();
    let c = generate_label_with_context(block_id, third, &mut counter).unwrap();
    global_state.label_counter = counter;
    Ok((a, b, c))
}

/// Emits a conditional.
pub fn emit_if(
    block_id: &str,
    i: &If,
    global_state: &mut GlobalState,
    function_state: &mut FunctionState,
    stack_view: &mut Stack<Type>,
    using_stack: &Stack<String>,
    depth: usize,
) -> (r: Result<String, CompileError>)
    requires
        ready(*old(global_state), *old(function_state), *old(stack_view)),
    ensures
        ready(*final(global_state), *final(function_state), *final(stack_view)),
        same_definitions(*old(global_state), *final(global_state)),
        r is Ok ==> same_function(*old(function_state), *final(function_state)),
        emitted(
            r,
            if_effect(
                block_id@,
                *i,
                context_of(*old(global_state), *old(function_state), *using_stack),
                env_of(*old(global_state), *old(stack_view)),
                depth as nat,
            ),
            *final(global_state),
            *final(stack_view),
        ),
    decreases depth, i, 0nat,
{
    let (if_id, else_id, exit_id) = match three_labels(
        block_id,
        "if",
        "else",
        "if_exit",
        &i.span,
        global_state,
    ) {
        Ok(labels) => labels,
        Err(e) => {
            return Err(e);
        },
    };
    match pop_condition("if", &i.span, stack_view) {
        Ok(()) => {},
        Err(e) => {
            return Err(e);
        },
    }
    let mut else_stack = stack_view.clone();
    let if_text = match emit_block(
        if_id.as_str(),
        &i.if_block,
        global_state,
        function_state,
        stack_view,
        using_stack,
        depth,
    ) {
        Ok(text) => text,
        Err(e) => {
            return Err(e);
        },
    };
    let else_text = match &i.else_block {
        None => String::new(),
        Some(else_block) => match emit_block(
            else_id.as_str(),
            else_block,
            global_state,
            function_state,
            &mut else_stack,
            using_stack,
            depth,
        ) {
            Ok(text) => text,
            Err(e) => {
                return Err(e);
            },
        },
    };
    proof {
        lemma_eq_seq_views(stack_view@, else_stack@);
    }
    if !stack_view.same_items(&else_stack) {
        return fail(
            &i.span,
            ErrorKind::BranchMismatch,
            "",
            render_stack(stack_view).as_str(),
            render_stack(&else_stack).as_str(),
        );
    }
    Ok(
        conditional(
            if_id.as_str(),
            else_id.as_str(),
            exit_id.as_str(),
            if_text.as_str(),
            else_text.as_str(),
        ),
    )
}

/// Emits a loop.
pub fn emit_while(
    block_id: &str,
    w: &While,
    global_state: &mut GlobalState,
    function_state: &mut FunctionState,
    stack_view: &mut Stack<Type>,
    using_stack: &Stack<String>,
    depth: usize,
) -> (r: Result<String, CompileError>)
    requires
        ready(*old(global_state), *old(function_state), *old(stack_view)),
    ensures
        ready(*final(global_state), *final(function_state), *final(stack_view)),
        same_definitions(*old(global_state), *final(global_state)),
        r is Ok ==> same_function(*old(function_state), *final(function_state)),
        emitted(
            r,
            while_effect(
                block_id@,
                *w,
                context_of(*old(global_state), *old(function_state), *using_stack),
                env_of(*old(global_state), *old(stack_view)),
                depth as nat,
            ),
            *final(global_state),
            *final(stack_view),
        ),
    decreases depth, w, 0nat,
{
    let (eval_id, body_id, exit_id) = match three_labels(
        block_id,
        "while_eval",
        "while_body",
        "while_exit",
        &w.span,
        global_state,
    ) {
        Ok(labels) => labels,
        Err(e) => {
            return Err(e);
        },
    };
    let before_eval = stack_view.clone();
    let eval_text = match emit_block(
        eval_id.as_str(),
        &w.eval,
        global_state,
        function_state,
        stack_view,
        using_stack,
        depth,
    ) {
        Ok(text) => text,
        Err(e) => {
            return Err(e);
        },
    };
    match pop_condition("while", &w.span, stack_view) {
        Ok(()) => {},
        Err(e) => {
            return Err(e);
        },
    }
    let mut after_body = stack_view.clone();
    let body_text = match emit_block(
        body_id.as_str(),
        &w.body,
        global_state,
        function_state,
        &mut after_body,
        using_stack,
        depth,
    ) {
        Ok(text) => text,
        Err(e) => {
            return Err(e);
        },
    };
    proof {
        lemma_eq_seq_views(after_body@, before_eval@);
    }
    if !after_body.same_items(&before_eval) {
        return fail(
            &w.span,
            ErrorKind::LoopMismatch,
            "",
            render_stack(&before_eval).as_str(),
            render_stack(&after_body).as_str(),
        );
    }
    Ok(
        while_loop(
            eval_id.as_str(),
            body_id.as_str(),
            exit_id.as_str(),
            eval_text.as_str(),
            body_text.as_str(),
        ),
    )
}

/// Emits a `let`.
#[verifier::rlimit(60)]
pub fn emit_let(
    block_id: &str,
    l: &Let,
    global_state: &mut GlobalState,
    function_state: &mut FunctionState,
    stack_view: &mut Stack<Type>,
    using_stack: &Stack<String>,
    depth: usize,
) -> (r: Result<String, CompileError>)
    requires
        ready(*old(global_state), *old(function_state), *old(stack_view)),
    ensures
        ready(*final(global_state), *final(function_state), *final(stack_view)),
        same_definitions(*old(global_state), *final(global_state)),
        r is Ok ==> same_function(*old(function_state), *final(function_state)),
        emitted(
            r,
            let_effect(
                block_id@,
                *l,
                context_of(*old(global_state), *old(function_state), *using_stack),
                env_of(*old(global_state), *old(stack_view)),
                depth as nat,
            ),
            *final(global_state),
            *final(stack_view),
        ),
    decreases depth, l, 0nat,
{
    let n = l.bindings.len();
    if stack_view.len < n {
        return fail_plain(
            &l.span,
            ErrorKind::BindingMissing,
            l.bindings[n - 1 - stack_view.len].name.as_str(),
        );
    }
    let mut counter = global_state.label_counter;
    let inner_id = match generate_label_with_context(block_id, "let_inner", &mut counter) {
        Some(label) => label,
        None => {
            return fail_plain(&l.span, ErrorKind::LabelsExhausted, "");
        },
    };
    global_state.label_counter = counter;
    let ghost old_bindings = function_state.current_bindings@;
    let ghost old_stack = stack_view@;
    let base = function_state.current_bindings.len();
    let mut text = String::new();
    let mut j: usize = 0;
    while j < n
        invariant
            j <= n,
            n == l.bindings@.len(),
            n <= old_stack.len(),
            stack_view.wf(),
            stack_view@ == old_stack.take(old_stack.len() - j),
            base == old_bindings.len(),
            function_state.current_bindings@.len() == base + j,
            function_state.current_bindings@.take(base as int) == old_bindings,
            forall|k: int|
                0 <= k < j ==> (#[trigger] function_state.current_bindings@[base + k]).0@
                    == l.bindings@[n - 1 - k].name@ && function_state.current_bindings@[base
                    + k].1@ == old_stack[old_stack.len() - 1 - k]@,
            function_state.function_out_stack == old(function_state).function_out_stack,
            function_state.function_out_label == old(function_state).function_out_label,
            function_state.function_name == old(function_state).function_name,
            text@ == repeated(BIND@, j as nat),
        decreases n - j,
    {
        let name = l.bindings[n - 1 - j].name.clone();
        let ghost before = function_state.current_bindings@;
        match stack_view.pop() {
            Some(t) => {
                assert(old_stack.take(old_stack.len() - j).drop_last() =~= old_stack.take(
                    old_stack.len() - j - 1,
                ));
                function_state.current_bindings.push((name, t));
                assert(function_state.current_bindings@.take(base as int) =~= before.take(
                    base as int,
                ));
            },
            None => {
                assert(false);
            },
        }
        text.append(BIND);
        j += 1;
    }
    function_state.function_let_bindings = function_state.current_bindings.len();
    proof {
        let ctx = context_of(*old(global_state), *old(function_state), *using_stack);
        let now = view_bindings(function_state.current_bindings@);
        let want = ctx.bindings + bound(l.bindings@, stack_types(*old(stack_view)));
        assert(now.len() == want.len());
        assert forall|k: int| 0 <= k < now.len() implies now[k] == want[k] by {
            if k < base {
                assert(function_state.current_bindings@.take(base as int)[k] == old_bindings[k]);
            } else {
                assert(function_state.current_bindings@[base + (k - base)].0@ == l.bindings@[n - 1
                    - (k - base)].name@);
            }
        }
        assert(now =~= want);
        assert(stack_types(*stack_view) =~= stack_types(*old(stack_view)).take(
            old_stack.len() - n,
        ));
    }
    let body_text = match emit_block(
        inner_id.as_str(),
        &l.body,
        global_state,
        function_state,
        stack_view,
        using_stack,
        depth,
    ) {
        Ok(text) => text,
        Err(e) => {
            return Err(e);
        },
    };
    function_state.current_bindings.truncate(base);
    function_state.function_let_bindings = base;
    assert(function_state.current_bindings@ =~= old_bindings);
    text.append(body_text.as_str());
    text.append(unwind(n).as_str());
    Ok(text)
}

/// Emits the body of an unrolled loop as often as the loop says.
pub fn emit_unroll(
    block_id: &str,
    u: &Unroll,
    global_state: &mut GlobalState,
    function_state: &mut FunctionState,
    stack_view: &mut Stack<Type>,
    using_stack: &Stack<String>,
    depth: usize,
) -> (r: Result<String, CompileError>)
    requires
        ready(*old(global_state), *old(function_state), *old(stack_view)),
    ensures
        ready(*final(global_state), *final(function_state), *final(stack_view)),
        same_definitions(*old(global_state), *final(global_state)),
        r is Ok ==> same_function(*old(function_state), *final(function_state)),
        emitted(
            r,
            unroll_effect(
                block_id@,
                *u,
                context_of(*old(global_state), *old(function_state), *using_stack),
                env_of(*old(global_state), *old(stack_view)),
                depth as nat,
                if u.times.val > 0 {
                    u.times.val as nat
                } else {
                    0
                },
            ),
            *final(global_state),
            *final(stack_view),
        ),
    decreases depth, u, 0nat,
{
    let times: usize = if u.times.val > 0 {
        u.times.val as usize
    } else {
        0
    };
    let ghost ctx = context_of(*old(global_state), *old(function_state), *using_stack);
    let ghost env = env_of(*old(global_state), *old(stack_view));
    let mut text = String::new();
    let mut k: usize = 0;
    while k < times
        invariant
            k <= times,
            times as nat == if u.times.val > 0 {
                u.times.val as nat
            } else {
                0
            },
            ready(*global_state, *function_state, *stack_view),
            same_definitions(*old(global_state), *global_state),
            same_function(*old(function_state), *function_state),
            ctx == context_of(*old(global_state), *old(function_state), *using_stack),
            env == env_of(*old(global_state), *old(stack_view)),
            unroll_effect(block_id@, *u, ctx, env, depth as nat, k as nat) == Ok::<(Env, Seq<char>), Failure>((env_of(*global_state, *stack_view), text@)),
        decreases times - k,
    {
        let mut counter = global_state.label_counter;
        let label = match generate_label(block_id, &mut counter) {
            Some(label) => label,
            None => {
                proof {
                    lemma_unroll_fails(
                        block_id@,
                        *u,
                        ctx,
                        env,
                        depth as nat,
                        (k + 1) as nat,
                        times as nat,
                    );
                }
                return fail_plain(&u.span, ErrorKind::LabelsExhausted, "");
            },
        };
        global_state.label_counter = counter;
        assert(context_of(*global_state, *function_state, *using_stack) == ctx);
        match emit_block(
            label.as_str(),
            &u.body,
            global_state,
            function_state,
            stack_view,
            using_stack,
            depth,
        ) {
            Ok(once) => {
                text.append(once.as_str());
            },
            Err(e) => {
                proof {
                    lemma_unroll_fails(
                        block_id@,
                        *u,
                        ctx,
                        env,
                        depth as nat,
                        (k + 1) as nat,
                        times as nat,
                    );
                }
                return Err(e);
            },
        }
        k += 1;
    }
    Ok(text)
}

/// Emits the statement `s`: checks its effect on the abstract stack, applies
/// it, and returns its assembly text. `block_id` is the base of the labels
/// that the statement defines, and `depth` bounds how deep inline
/// definitions may expand into one another.
pub fn emit_statement(
    block_id: &str,
    s: &Statement,
    global_state: &mut GlobalState,
    function_state: &mut FunctionState,
    stack_view: &mut Stack<Type>,
    using_stack: &Stack<String>,
    depth: usize,
) -> (r: Result<String, CompileError>)
    requires
        ready(*old(global_state), *old(function_state), *old(stack_view)),
    ensures
        ready(*final(global_state), *final(function_state), *final(stack_view)),
        same_definitions(*old(global_state), *final(global_state)),
        r is Ok ==> same_function(*old(function_state), *final(function_state)),
        emitted(
            r,
            statement_effect(
                block_id@,
                *s,
                context_of(*old(global_state), *old(function_state), *using_stack),
                env_of(*old(global_state), *old(stack_view)),
                depth as nat,
            ),
            *final(global_state),
            *final(stack_view),
        ),
    decreases depth, s, 1nat,
{
    match s {
        Statement::IntLiteral(literal) => apply(
            "literal",
            &literal.span,
            global_state,
            stack_view,
            no_types(),
            types1(number()),
            push_number(literal.val),
        ),
        Statement::BoolLiteral(literal) => apply(
            "literal",
            &literal.span,
            global_state,
            stack_view,
            no_types(),
            types1(Type::Bool),
            push_number(literal.val),
        ),
        Statement::IntArray(array) => {
            let id = match global_state.const_allocs.allocate(&array.val) {
                Some(id) => id,
                None => {
                    return fail_plain(&array.span, ErrorKind::LabelsExhausted, "");
                },
            };
            apply(
                "array",
                &array.span,
                global_state,
                stack_view,
                no_types(),
                types1(pointer(number())),
                push_label(const_label(id.as_str()).as_str()),
            )
        },
        Statement::Identifier(identifier) => {
            match emit_builtin(&identifier.name, &identifier.span, global_state, stack_view) {
                Some(r) => {
                    return r;
                },
                None => {},
            }
            match emit_name(
                block_id,
                identifier,
                global_state,
                function_state,
                stack_view,
                using_stack,
            ) {
                Err(e) => Err(e),
                Ok(Expansion::Text(text)) => Ok(text),
                Ok(Expansion::Inline(statement)) => {
                    if depth == 0 {
                        fail_plain(
                            &identifier.span,
                            ErrorKind::InlineDepth,
                            identifier.name.as_str(),
                        )
                    } else {
                        emit_statement(
                            block_id,
                            &*statement,
                            global_state,
                            function_state,
                            stack_view,
                            using_stack,
                            depth - 1,
                        )
                    }
                },
            }
        },
        Statement::Operator(op) => {
            let mut counter = global_state.label_counter;
            let label = match generate_label_with_context(block_id, "operator", &mut counter) {
                Some(label) => label,
                None => {
                    return fail_plain(&op.span(), ErrorKind::LabelsExhausted, "");
                },
            };
            global_state.label_counter = counter;
            emit_operator(
                label.as_str(),
                op,
                global_state,
                function_state,
                stack_view,
                using_stack,
            )
        },
        Statement::Block(b) => {
            let mut counter = global_state.label_counter;
            let label = match generate_label(block_id, &mut counter) {
                Some(label) => label,
                None => {
                    return fail_plain(&b.span, ErrorKind::LabelsExhausted, "");
                },
            };
            global_state.label_counter = counter;
            emit_block(
                label.as_str(),
                b,
                global_state,
                function_state,
                stack_view,
                using_stack,
                depth,
            )
        },
        Statement::Unroll(u) => emit_unroll(
            block_id,
            u,
            global_state,
            function_state,
            stack_view,
            using_stack,
            depth,
        ),
        Statement::If(i) => emit_if(
            block_id,
            i,
            global_state,
            function_state,
            stack_view,
            using_stack,
            depth,
        ),
        Statement::While(w) => emit_while(
            block_id,
            w,
            global_state,
            function_state,
            stack_view,
            using_stack,
            depth,
        ),
        Statement::Let(l) => emit_let(
            block_id,
            l,
            global_state,
            function_state,
            stack_view,
            using_stack,
            depth,
        ),
    }
}

} // verus!
