//! What holds of every program that compiles: stacks balance, branches
//! rejoin, generic words keep their types, and unused functions are left out.

use crate::ast::{Block, Function, If, Operator, Span, While};
use crate::dep_graph::reachable_in;
use crate::error::{ErrorKind, Failure};
use crate::render::types_text;
use crate::function::{body_context, function_effect};
use crate::labels::{context_base, function_label_of, numbered_label};
use crate::module::{program_roots, used_text};
use crate::operator::{
    add_rules, generic_a, generic_b, operator_effect, pointer_to, sub_rules,
};
use crate::state::{Context, Defined, Env};
use crate::statement::{block_effect, if_effect, while_effect};
use crate::table::{held, value_in};
use crate::type_check::{
    first_transition, resolve, resolve_all, rules_text, transition, unify, unify_first,
};
use crate::types::{baseline, TypeView};
use vstd::prelude::*;

verus! {

/// A function that compiles starts its body on the types that it declares to
/// take and ends it on the types that it declares to leave.
pub proof fn function_balances(
    f: Function,
    module_prefix: Seq<char>,
    defs: Defined,
    usings: Seq<Seq<char>>,
    env: Env,
)
    requires
        function_effect(f, module_prefix, defs, usings, env) is Ok,
    ensures
        ({
            let name = module_prefix + f.name.name@;
            let label = function_label_of(name);
            let signature = value_in(defs.signatures, name);
            let body = block_effect(
                label + "_body"@,
                f.body,
                body_context(defs, usings, name, signature.1, label + "_exit"@),
                Env { stack: signature.0, ..env },
                defs.inlines.len(),
                f.body.body@.len(),
            );
            &&& body is Ok
            &&& body->Ok_0.0.stack == signature.1
        }),
{
}

/// A function whose body compiles and ends on other types than the function
/// declares to leave is an error at the function, and the error names the
/// types declared and the types left.
pub proof fn unbalanced_function_fails(
    f: Function,
    module_prefix: Seq<char>,
    defs: Defined,
    usings: Seq<Seq<char>>,
    env: Env,
)
    requires
        held(defs.signatures, module_prefix + f.name.name@),
        ({
            let name = module_prefix + f.name.name@;
            let label = function_label_of(name);
            let signature = value_in(defs.signatures, name);
            let body = block_effect(
                label + "_body"@,
                f.body,
                body_context(defs, usings, name, signature.1, label + "_exit"@),
                Env { stack: signature.0, ..env },
                defs.inlines.len(),
                f.body.body@.len(),
            );
            body is Ok && body->Ok_0.0.stack != signature.1
        }),
    ensures
        ({
            let name = module_prefix + f.name.name@;
            let label = function_label_of(name);
            let signature = value_in(defs.signatures, name);
            let body = block_effect(
                label + "_body"@,
                f.body,
                body_context(defs, usings, name, signature.1, label + "_exit"@),
                Env { stack: signature.0, ..env },
                defs.inlines.len(),
                f.body.body@.len(),
            );
            function_effect(f, module_prefix, defs, usings, env) == Err::<(Env, Seq<char>), Failure>(
                (Failure {
                    span: f.span,
                    kind: ErrorKind::SignatureMismatch,
                    detail: "The signature of the function expects a return of "@ + types_text(
                        signature.1,
                    ) + ", but the body leaves "@ + types_text(body->Ok_0.0.stack),
                }),
            )
        }),
{
}

/// A `return` compiles only on the stack that the function declares to
/// leave, and it leaves the stack as it is. Elsewhere it is an error that
/// names the types declared and the types on the stack.
pub proof fn return_balances(block_id: Seq<char>, span: Span, ctx: Context, env: Env)
    ensures
        match operator_effect(block_id, Operator::Return(span), ctx, env) {
            Ok((after, _)) => env.stack == ctx.out_stack && after == env,
            Err(e) => env.stack != ctx.out_stack && e == (Failure {
                span,
                kind: ErrorKind::ReturnMismatch,
                detail: "Cannot return here. Expecting stack contents of "@ + types_text(
                    ctx.out_stack,
                ) + " but found "@ + types_text(env.stack),
            }),
        },
{
}

/// The stack below the condition, and the state in which the first arm of a conditional starts.
pub open spec fn arm_start(env: Env) -> Env {
    Env { stack: env.stack.drop_last(), counter: env.counter + 3, ..env }
}

/// A conditional that compiles has two arms that leave the same stack, and
/// that stack is what the conditional leaves. Without an `else`, the first
/// arm leaves the stack on which it started.
pub proof fn branches_rejoin(block_id: Seq<char>, i: If, ctx: Context, env: Env, depth: nat)
    requires
        if_effect(block_id, i, ctx, env, depth) is Ok,
    ensures
        ({
            let if_id = numbered_label(context_base(block_id, "if"@), env.counter + 1);
            let else_id = numbered_label(context_base(block_id, "else"@), env.counter + 2);
            let first = block_effect(
                if_id,
                i.if_block,
                ctx,
                arm_start(env),
                depth,
                i.if_block.body@.len(),
            );
            let after = if_effect(block_id, i, ctx, env, depth)->Ok_0.0;
            &&& first is Ok
            &&& after.stack == first->Ok_0.0.stack
            &&& match i.else_block {
                None => after.stack == env.stack.drop_last(),
                Some(else_block) => {
                    let second = block_effect(
                        else_id,
                        else_block,
                        ctx,
                        Env { stack: env.stack.drop_last(), ..first->Ok_0.0 },
                        depth,
                        else_block.body@.len(),
                    );
                    second is Ok && second->Ok_0.0.stack == first->Ok_0.0.stack
                },
            }
        }),
{
}

/// Two arms that compile and leave different stacks make the conditional an
/// error that names both stacks.
pub proof fn branches_that_differ_fail(
    block_id: Seq<char>,
    i: If,
    else_block: Block,
    ctx: Context,
    env: Env,
    depth: nat,
)
    requires
        i.else_block == Some(else_block),
        env.counter + 3 <= usize::MAX,
        env.stack.len() > 0,
        env.stack.last() is Pointer || env.stack.last() is U16,
        ({
            let if_id = numbered_label(context_base(block_id, "if"@), env.counter + 1);
            let else_id = numbered_label(context_base(block_id, "else"@), env.counter + 2);
            let first = block_effect(
                if_id,
                i.if_block,
                ctx,
                arm_start(env),
                depth,
                i.if_block.body@.len(),
            );
            &&& first is Ok
            &&& ({
                let second = block_effect(
                    else_id,
                    else_block,
                    ctx,
                    Env { stack: env.stack.drop_last(), ..first->Ok_0.0 },
                    depth,
                    else_block.body@.len(),
                );
                second is Ok && second->Ok_0.0.stack != first->Ok_0.0.stack
            })
        }),
    ensures
        ({
            let if_id = numbered_label(context_base(block_id, "if"@), env.counter + 1);
            let else_id = numbered_label(context_base(block_id, "else"@), env.counter + 2);
            let first = block_effect(
                if_id,
                i.if_block,
                ctx,
                arm_start(env),
                depth,
                i.if_block.body@.len(),
            );
            let second = block_effect(
                else_id,
                else_block,
                ctx,
                Env { stack: env.stack.drop_last(), ..first->Ok_0.0 },
                depth,
                else_block.body@.len(),
            );
            if_effect(block_id, i, ctx, env, depth) == Err::<(Env, Seq<char>), Failure>(
                (Failure {
                    span: i.span,
                    kind: ErrorKind::BranchMismatch,
                    detail: "If and else blocks do not have the same elements on the stack after execution. If has "@
                        + types_text(first->Ok_0.0.stack) + " and else has "@ + types_text(
                        second->Ok_0.0.stack,
                    ),
                }),
            )
        }),
{
}

/// A loop that compiles has a body that ends on the stack with which the
/// loop was entered, so that every round starts on the same stack.
pub proof fn loop_restores_the_stack(block_id: Seq<char>, w: While, ctx: Context, env: Env, depth: nat)
    requires
        while_effect(block_id, w, ctx, env, depth) is Ok,
    ensures
        ({
            let eval_id = numbered_label(context_base(block_id, "while_eval"@), env.counter + 1);
            let body_id = numbered_label(context_base(block_id, "while_body"@), env.counter + 2);
            let eval = block_effect(
                eval_id,
                w.eval,
                ctx,
                Env { counter: env.counter + 3, ..env },
                depth,
                w.eval.body@.len(),
            );
            &&& eval is Ok
            &&& eval->Ok_0.0.stack.len() > 0
            &&& ({
                let body = block_effect(
                    body_id,
                    w.body,
                    ctx,
                    Env { stack: eval->Ok_0.0.stack.drop_last(), ..eval->Ok_0.0 },
                    depth,
                    w.body.body@.len(),
                );
                &&& body is Ok
                &&& body->Ok_0.0.stack == env.stack
                &&& while_effect(block_id, w, ctx, env, depth)->Ok_0.0.stack
                    == eval->Ok_0.0.stack.drop_last()
            })
        }),
{
}

/// An operation changes only the items that it takes: the stack below them
/// stays as it is, and the stack grows or shrinks by the difference between
/// what the operation leaves and what it takes.
pub proof fn transition_keeps_the_rest(stack: Seq<TypeView>, in_t: Seq<TypeView>, out_t: Seq<TypeView>)
    requires
        transition(stack, in_t, out_t) is Ok,
    ensures
        ({
            let after = transition(stack, in_t, out_t)->Ok_0;
            &&& in_t.len() <= stack.len()
            &&& after.len() == stack.len() - in_t.len() + out_t.len()
            &&& after.take(stack.len() - in_t.len()) == stack.take(stack.len() - in_t.len())
        }),
{
    let after = transition(stack, in_t, out_t)->Ok_0;
    let below = stack.len() - in_t.len();
    assert(after.take(below) =~= stack.take(below));
}

/// `dup` puts a second item of the type of the top item on the stack,
/// whatever that type is.
pub proof fn dup_keeps_the_type(stack: Seq<TypeView>, t: TypeView)
    requires
        stack.len() + 2 <= usize::MAX,
    ensures
        transition(stack.push(t), seq![generic_a()], seq![generic_a(), generic_a()]) == Ok::<
            Seq<TypeView>,
            ErrorKind,
        >(stack.push(t).push(t)),
{
    let full = stack.push(t);
    let g = Map::<Seq<char>, TypeView>::empty().insert("$a"@, t);
    let out = seq![generic_a(), generic_a()];
    assert(full.skip(full.len() - 1) =~= seq![t]);
    reveal_with_fuel(unify_first, 2);
    assert(unify(t, generic_a(), Map::empty()) == Some(g));
    assert(resolve(generic_a(), g) == Some(t));
    assert(resolve_all(out, g) is Some);
    assert(resolve_all(out, g)->0 =~= seq![t, t]);
    assert(full.take(full.len() - 1) + seq![t, t] =~= full.push(t));
}

/// `swap` exchanges the two top items, whatever their types are.
pub proof fn swap_exchanges_the_types(stack: Seq<TypeView>, x: TypeView, y: TypeView)
    requires
        stack.len() + 2 <= usize::MAX,
    ensures
        transition(
            stack.push(x).push(y),
            seq![generic_a(), generic_b()],
            seq![generic_b(), generic_a()],
        ) == Ok::<Seq<TypeView>, ErrorKind>(stack.push(y).push(x)),
{
    reveal_strlit("$a");
    reveal_strlit("$b");
    assert("$a"@ != "$b"@) by {
        assert("$a"@[1] == 'a');
        assert("$b"@[1] == 'b');
    }
    let full = stack.push(x).push(y);
    let g1 = Map::<Seq<char>, TypeView>::empty().insert("$a"@, x);
    let g2 = g1.insert("$b"@, y);
    let out = seq![generic_b(), generic_a()];
    assert(full.skip(full.len() - 2) =~= seq![x, y]);
    reveal_with_fuel(unify_first, 3);
    assert(unify(x, generic_a(), Map::empty()) == Some(g1));
    assert(unify(y, generic_b(), g1) == Some(g2));
    assert(resolve(generic_b(), g2) == Some(y));
    assert(resolve(generic_a(), g2) == Some(x));
    assert(resolve_all(out, g2) is Some);
    assert(resolve_all(out, g2)->0 =~= seq![y, x]);
    assert(full.take(full.len() - 2) + seq![y, x] =~= stack.push(y).push(x));
}

/// A stack effect that takes the same generic type twice does not apply to
/// two items of different types.
pub proof fn one_label_one_type(stack: Seq<TypeView>, x: TypeView, y: TypeView, out_t: Seq<TypeView>)
    requires
        x != y,
    ensures
        transition(stack.push(x).push(y), seq![generic_a(), generic_a()], out_t) == Err::<
            Seq<TypeView>,
            ErrorKind,
        >(ErrorKind::StackMismatch),
{
    let full = stack.push(x).push(y);
    let g1 = Map::<Seq<char>, TypeView>::empty().insert("$a"@, x);
    assert(full.skip(full.len() - 2) =~= seq![x, y]);
    reveal_with_fuel(unify_first, 3);
    assert(unify(x, generic_a(), Map::empty()) == Some(g1));
    assert(unify(y, generic_a(), g1) is None);
}

/// `+` on a pointer and a number keeps the pointer: the sum has the type of the pointer.
pub proof fn plus_keeps_the_pointer(stack: Seq<TypeView>, t: TypeView)
    requires
        stack.len() + 2 <= usize::MAX,
    ensures
        first_transition(stack.push(pointer_to(t)).push(TypeView::U16), add_rules(), 0) == Ok::<
            Seq<TypeView>,
            ErrorKind,
        >(stack.push(pointer_to(t))),
{
    let full = stack.push(pointer_to(t)).push(TypeView::U16);
    let g = Map::<Seq<char>, TypeView>::empty().insert("$a"@, t);
    let in_t = seq![pointer_to(generic_a()), TypeView::U16];
    let out_t = seq![pointer_to(generic_a())];
    assert(full.skip(full.len() - 2) =~= seq![pointer_to(t), TypeView::U16]);
    reveal_with_fuel(unify_first, 3);
    reveal_with_fuel(baseline, 2);
    assert(baseline(pointer_to(t), pointer_to(generic_a())) == Some((t, generic_a())));
    assert(unify(pointer_to(t), pointer_to(generic_a()), Map::empty()) == Some(g));
    assert(unify(TypeView::U16, TypeView::U16, g) == Some(g));
    assert(resolve(pointer_to(generic_a()), g) == Some(pointer_to(t))) by {
        reveal_with_fuel(resolve, 2);
        assert(resolve(generic_a(), g) == Some(t));
    }
    assert(resolve_all(out_t, g) is Some);
    assert(resolve_all(out_t, g)->0 =~= seq![pointer_to(t)]);
    assert(full.take(full.len() - 2) + seq![pointer_to(t)] =~= stack.push(pointer_to(t)));
    assert(transition(full, in_t, out_t) == Ok::<Seq<TypeView>, ErrorKind>(
        stack.push(pointer_to(t)),
    ));
    assert(add_rules()[0] == (in_t, out_t));
}

/// `-` on two pointers to the same type gives their distance, a number.
pub proof fn minus_gives_the_distance(stack: Seq<TypeView>, t: TypeView)
    requires
        stack.len() + 2 <= usize::MAX,
    ensures
        first_transition(stack.push(pointer_to(t)).push(pointer_to(t)), sub_rules(), 0) == Ok::<
            Seq<TypeView>,
            ErrorKind,
        >(stack.push(TypeView::U16)),
{
    let full = stack.push(pointer_to(t)).push(pointer_to(t));
    let g = Map::<Seq<char>, TypeView>::empty().insert("$a"@, t);
    let top = seq![pointer_to(t), pointer_to(t)];
    assert(full.skip(full.len() - 2) =~= top);
    reveal_with_fuel(unify_first, 3);
    reveal_with_fuel(baseline, 2);
    reveal_with_fuel(first_transition, 3);
    assert(baseline(pointer_to(t), pointer_to(generic_a())) == Some((t, generic_a())));
    assert(baseline(pointer_to(t), TypeView::U16) == Some((pointer_to(t), TypeView::U16)));
    assert(unify(pointer_to(t), pointer_to(generic_a()), Map::empty()) == Some(g));
    assert(unify(pointer_to(t), TypeView::U16, g) is None);
    assert(unify(pointer_to(t), pointer_to(generic_a()), g) == Some(g));
    assert(sub_rules()[0] == (seq![pointer_to(generic_a()), TypeView::U16], seq![pointer_to(generic_a())]));
    assert(sub_rules()[1] == (seq![pointer_to(generic_a()), pointer_to(generic_a())], seq![TypeView::U16]));
    assert(transition(full, sub_rules()[0].0, sub_rules()[0].1) is Err);
    assert(resolve_all(seq![TypeView::U16], g) is Some);
    assert(resolve_all(seq![TypeView::U16], g)->0 =~= seq![TypeView::U16]);
    assert(full.take(full.len() - 2) + seq![TypeView::U16] =~= stack.push(TypeView::U16));
    assert(transition(full, sub_rules()[1].0, sub_rules()[1].1) == Ok::<Seq<TypeView>, ErrorKind>(
        stack.push(TypeView::U16),
    ));
}

/// `-` does not apply to two pointers to different types.
pub proof fn minus_needs_one_type(stack: Seq<TypeView>, t1: TypeView, t2: TypeView)
    requires
        t1 != t2,
    ensures
        first_transition(stack.push(pointer_to(t1)).push(pointer_to(t2)), sub_rules(), 0) == Err::<
            Seq<TypeView>,
            ErrorKind,
        >(ErrorKind::NoMatchingRule),
{
    let full = stack.push(pointer_to(t1)).push(pointer_to(t2));
    let g = Map::<Seq<char>, TypeView>::empty().insert("$a"@, t1);
    let top = seq![pointer_to(t1), pointer_to(t2)];
    assert(full.skip(full.len() - 2) =~= top);
    reveal_with_fuel(unify_first, 3);
    reveal_with_fuel(baseline, 2);
    reveal_with_fuel(first_transition, 4);
    assert(baseline(pointer_to(t1), pointer_to(generic_a())) == Some((t1, generic_a())));
    assert(baseline(pointer_to(t2), pointer_to(generic_a())) == Some((t2, generic_a())));
    assert(baseline(pointer_to(t2), TypeView::U16) == Some((pointer_to(t2), TypeView::U16)));
    assert(baseline(pointer_to(t1), TypeView::U16) == Some((pointer_to(t1), TypeView::U16)));
    assert(unify(pointer_to(t1), pointer_to(generic_a()), Map::empty()) == Some(g));
    assert(unify(pointer_to(t2), TypeView::U16, g) is None);
    assert(unify(pointer_to(t2), pointer_to(generic_a()), g) is None);
    assert(unify(pointer_to(t1), TypeView::U16, Map::empty()) is None);
    assert(sub_rules()[0] == (seq![pointer_to(generic_a()), TypeView::U16], seq![pointer_to(generic_a())]));
    assert(sub_rules()[1] == (seq![pointer_to(generic_a()), pointer_to(generic_a())], seq![TypeView::U16]));
    assert(sub_rules()[2] == (seq![TypeView::U16, TypeView::U16], seq![TypeView::U16]));
    assert(transition(full, sub_rules()[0].0, sub_rules()[0].1) is Err);
    assert(transition(full, sub_rules()[1].0, sub_rules()[1].1) is Err);
    assert(transition(full, sub_rules()[2].0, sub_rules()[2].1) is Err);
}

/// Three stack effects as an error lists them: each after a blank, with an
/// arrow between what it takes and what it leaves.
pub proof fn three_rules_are_listed(rules: Seq<(Seq<TypeView>, Seq<TypeView>)>)
    requires
        rules.len() == 3,
    ensures
        rules_text(rules, 3) == " "@ + types_text(rules[0].0) + " -> "@ + types_text(rules[0].1)
            + " "@ + types_text(rules[1].0) + " -> "@ + types_text(rules[1].1) + " "@
            + types_text(rules[2].0) + " -> "@ + types_text(rules[2].1),
{
    let none = rules_text(rules, 0);
    let one = rules_text(rules, 1);
    let two = rules_text(rules, 2);
    assert(none + " "@ =~= " "@);
    assert(one == none + " "@ + types_text(rules[0].0) + " -> "@ + types_text(rules[0].1));
    assert(two == one + " "@ + types_text(rules[1].0) + " -> "@ + types_text(rules[1].1));
    assert(rules_text(rules, 3) == two + " "@ + types_text(rules[2].0) + " -> "@ + types_text(
        rules[2].1,
    ));
}

/// A `-` on a stack that none of its stack effects admits is an error at the
/// operator. The error names the operator, lists every stack effect that was
/// tried, and names the stack.
pub proof fn minus_without_a_rule_fails(block_id: Seq<char>, span: Span, ctx: Context, env: Env)
    requires
        first_transition(env.stack, sub_rules(), 0) is Err,
    ensures
        operator_effect(block_id, Operator::Sub(span), ctx, env) == Err::<(Env, Seq<char>), Failure>(
            (Failure {
                span,
                kind: ErrorKind::NoMatchingRule,
                detail: "Cannot invoke statement `"@ + "-"@ + "` as it requires one of"@ + rules_text(
                    sub_rules(),
                    3,
                ) + " to match. Current stack is "@ + types_text(env.stack) + "."@,
            }),
        ),
{
    assert(sub_rules().len() == 3);
}

/// The text of the used functions does not change when a function that
/// cannot be reached from the roots of the program is taken away: such a
/// function adds nothing to the program.
pub proof fn unused_functions_add_nothing(
    functions: Seq<(Seq<char>, Seq<char>)>,
    edges: Set<(Seq<char>, Seq<char>)>,
    i: int,
    n: nat,
)
    requires
        0 <= i < functions.len(),
        i < n <= functions.len(),
        !reachable_in(program_roots(), edges, functions[i].0),
    ensures
        used_text(functions, edges, n) == used_text(functions.remove(i), edges, (n - 1) as nat),
    decreases n,
{
    let rest = functions.remove(i);
    if n - 1 > i {
        unused_functions_add_nothing(functions, edges, i, (n - 1) as nat);
        assert(rest[n - 2] == functions[n - 1]);
    } else {
        same_prefix_same_text(functions, rest, edges, i as nat);
    }
}

/// Two tables of functions that agree on their first `n` entries have the same used text of those.
pub proof fn same_prefix_same_text(
    a: Seq<(Seq<char>, Seq<char>)>,
    b: Seq<(Seq<char>, Seq<char>)>,
    edges: Set<(Seq<char>, Seq<char>)>,
    n: nat,
)
    requires
        n <= a.len(),
        n <= b.len(),
        forall|k: int| 0 <= k < n ==> a[k] == b[k],
    ensures
        used_text(a, edges, n) == used_text(b, edges, n),
    decreases n,
{
    if n > 0 {
        same_prefix_same_text(a, b, edges, (n - 1) as nat);
    }
}

} // verus!
