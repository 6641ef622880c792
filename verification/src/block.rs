//! Blocks: statements emitted one after the other on one abstract stack.

use crate::ast::Block;
use crate::error::{CompileError, Failure};
use crate::gss::Stack;
use crate::state::{
    context_of, emitted, env_of, ready, same_definitions, same_function, Env, FunctionState,
    GlobalState,
};
use crate::statement::{block_effect, emit_statement, lemma_block_fails};
use crate::types::Type;
use vstd::prelude::*;
use vstd::std_specs::vec::axiom_vec_index_decreases;
use vstd::string::StringExecFns;

verus! {

/// Emits the statements of the block in order, each on the stack that the
/// one before it left, and returns their texts in a row.
pub fn emit_block(
    block_id: &str,
    b: &Block,
    global_state: &mut GlobalState,
    function_state: &mut FunctionState,
    stack_view: &mut Stack<Type>,
    using_stack: &Stack<String>,
    depth: usize,
) -> (r: Result<String, CompileError>)
    requires
        ready(*old(global_state), *old(function_state), *old(stack_view)),
    ensures
        ready(*final(global_state), *final(function_state), *final(stack_view)),
        same_definitions(*old(global_state), *final(global_state)),
        r is Ok ==> same_function(*old(function_state), *final(function_state)),
        emitted(
            r,
            block_effect(
                block_id@,
                *b,
                context_of(*old(global_state), *old(function_state), *using_stack),
                env_of(*old(global_state), *old(stack_view)),
                depth as nat,
                b.body@.len(),
            ),
            *final(global_state),
            *final(stack_view),
        ),
    decreases depth, b, 0nat,
{
    let ghost ctx = context_of(*old(global_state), *old(function_state), *using_stack);
    let ghost env = env_of(*old(global_state), *old(stack_view));
    let mut block = String::new();
    let mut n: usize = 0;
    while n < b.body.len()
        invariant
            n <= b.body@.len(),
            ready(*global_state, *function_state, *stack_view),
            same_definitions(*old(global_state), *global_state),
            same_function(*old(function_state), *function_state),
            ctx == context_of(*old(global_state), *old(function_state), *using_stack),
            env == env_of(*old(global_state), *old(stack_view)),
            block_effect(block_id@, *b, ctx, env, depth as nat, n as nat) == Ok::<(Env, Seq<char>), Failure>((env_of(*global_state, *stack_view), block@)),
        decreases b.body@.len() - n,
    {
        proof {
            axiom_vec_index_decreases(b.body, n as int);
        }
        assert(context_of(*global_state, *function_state, *using_stack) == ctx);
        match emit_statement(
            block_id,
            &b.body[n],
            global_state,
            function_state,
            stack_view,
            using_stack,
            depth,
        ) {
            Ok(statement) => {
                block.append(statement.as_str());
            },
            Err(e) => {
                proof {
                    lemma_block_fails(
                        block_id@,
                        *b,
                        ctx,
                        env,
                        depth as nat,
                        (n + 1) as nat,
                        b.body@.len(),
                    );
                }
                return Err(e);
            },
        }
        n += 1;
    }
    Ok(block)
}

} // verus!
