//! Functions: the body emitted between the declared input and output stacks.

use crate::assembly::{function_frame, function_frame_text, isr_frame, isr_frame_text};
use crate::ast::Function;
use crate::block::emit_block;
use crate::error::{fail, fail_plain, failure, plain, CompileError, ErrorKind, Failure};
use crate::gss::Stack;
use crate::labels::{function_label, function_label_of};
use crate::render::{names_text, render_types, render_usings, types_text};
use crate::scope::prefixes;
use crate::state::lemma_defined;
use crate::table::{held, value_in};
use crate::state::{
    defined_of, emitted, env_of, lemma_eq_seq_views, same_definitions, Context, Defined, Env,
    FunctionState, GlobalState, Outcome,
};
use crate::statement::block_effect;
use crate::text::join;
use crate::type_check::{render_stack, stack_types};
use crate::types::{Type, TypeView};
use vstd::prelude::*;
use vstd::string::StringExecFns;

verus! {

/// The context in which the body of the function `name` is emitted.
pub open spec fn body_context(
    defs: Defined,
    usings: Seq<Seq<char>>,
    name: Seq<char>,
    out_stack: Seq<TypeView>,
    out_label: Seq<char>,
) -> Context {
    Context {
        defs,
        usings,
        function_name: name,
        out_stack,
        out_label,
        bindings: Seq::empty(),
    }
}

/// What the function `f` of the module with the prefix `module_prefix` does
/// when it is emitted. Its body starts on the declared inputs and must end on
/// the declared outputs. Inline definitions may nest as deep as there are
/// inline definitions.
pub open spec fn function_effect(
    f: Function,
    module_prefix: Seq<char>,
    defs: Defined,
    usings: Seq<Seq<char>>,
    env: Env,
) -> Outcome {
    let name = module_prefix + f.name.name@;
    let label = function_label_of(name);
    if !held(defs.signatures, name) {
        Err(failure(f.span, ErrorKind::UnknownFunction, name, ""@, names_text(usings)))
    } else {
        let signature = value_in(defs.signatures, name);
        match block_effect(
            label + "_body"@,
            f.body,
            body_context(defs, usings, name, signature.1, label + "_exit"@),
            Env { stack: signature.0, ..env },
            defs.inlines.len(),
            f.body.body@.len(),
        ) {
            Err(e) => Err(e),
            Ok((after, body)) => if after.stack == signature.1 {
                Ok((after, function_frame_text(label, body, label + "_exit"@, f.name.name@)))
            } else {
                Err(
                    failure(
                        f.span,
                        ErrorKind::SignatureMismatch,
                        ""@,
                        types_text(signature.1),
                        types_text(after.stack),
                    ),
                )
            },
        }
    }
}

/// What the interrupt service routine `f` does when it is emitted. It
/// declares neither inputs nor outputs, and its body starts and ends on an
/// empty stack.
pub open spec fn isr_effect(f: Function, defs: Defined, usings: Seq<Seq<char>>, env: Env) -> Outcome {
    if f.type_def.i@.len() != 0 || f.type_def.o@.len() != 0 {
        Err(plain(f.span, ErrorKind::IsrSignature, ""@))
    } else {
        match block_effect(
            f.name.name@ + "_body"@,
            f.body,
            body_context(defs, usings, "isr"@, Seq::empty(), f.name.name@ + "_exit"@),
            Env { stack: Seq::empty(), ..env },
            defs.inlines.len(),
            f.body.body@.len(),
        ) {
            Err(e) => Err(e),
            Ok((after, body)) => if after.stack.len() == 0 {
                Ok((after, isr_frame_text(body, f.name.name@ + "_exit"@)))
            } else {
                Err(failure(f.span, ErrorKind::IsrStack, ""@, ""@, types_text(after.stack)))
            },
        }
    }
}

/// Emits the interrupt service routine.
pub fn emit_isr(f: &Function, global_state: &mut GlobalState, using_stack: &Stack<String>) -> (r:
    Result<String, CompileError>)
    requires
        old(global_state).const_allocs@.wf(),
    ensures
        final(global_state).const_allocs@.wf(),
        same_definitions(*old(global_state), *final(global_state)),
        match r {
            Ok(text) => isr_effect(
                *f,
                defined_of(*old(global_state)),
                prefixes(*using_stack),
                env_with(*old(global_state), Seq::empty()),
            ) == Ok::<(Env, Seq<char>), Failure>(
                (env_with(*final(global_state), Seq::empty()), text@),
            ),
            Err(e) => isr_effect(
                *f,
                defined_of(*old(global_state)),
                prefixes(*using_stack),
                env_with(*old(global_state), Seq::empty()),
            ) == Err::<(Env, Seq<char>), Failure>(e@),
        },
{
    if f.type_def.i.len() != 0 || f.type_def.o.len() != 0 {
        return fail_plain(&f.span, ErrorKind::IsrSignature, "");
    }
    proof {
        lemma_defined(*global_state);
    }
    let out_label = join(f.name.name.as_str(), "_exit");
    let mut function_state = FunctionState {
        current_bindings: Vec::new(),
        function_out_stack: Vec::new(),
        function_out_label: out_label.clone(),
        function_let_bindings: 0,
        function_name: String::from_str("isr"),
    };
    let mut stack_view: Stack<Type> = Stack::empty();
    let depth = global_state.inlines.len();
    let body_id = join(f.name.name.as_str(), "_body");
    proof {
        let ctx = crate::state::context_of(*global_state, function_state, *using_stack);
        assert(ctx.bindings =~= Seq::empty());
        assert(ctx.out_stack =~= Seq::empty());
        assert(ctx == body_context(
            defined_of(*global_state),
            prefixes(*using_stack),
            "isr"@,
            Seq::empty(),
            f.name.name@ + "_exit"@,
        ));
        assert(stack_types(stack_view) =~= Seq::empty());
        assert(env_of(*global_state, stack_view) == env_with(*global_state, Seq::empty()));
    }
    let block = match emit_block(
        body_id.as_str(),
        &f.body,
        global_state,
        &mut function_state,
        &mut stack_view,
        using_stack,
        depth,
    ) {
        Ok(block) => block,
        Err(e) => {
            return Err(e);
        },
    };
    if !stack_view.is_empty() {
        return fail(
            &f.span,
            ErrorKind::IsrStack,
            "",
            "",
            render_stack(&stack_view).as_str(),
        );
    }
    assert(stack_types(stack_view) =~= Seq::empty());
    assert(env_of(*global_state, stack_view) == env_with(*global_state, Seq::empty()));
    Ok(isr_frame(block.as_str(), out_label.as_str()))
}

/// The state that the emitters change, with `stack` for the abstract stack.
pub open spec fn env_with(global: GlobalState, stack: Seq<TypeView>) -> Env {
    Env {
        stack,
        counter: global.label_counter as nat,
        arena: global.const_allocs@,
        edges: global.function_dependencies.edge_set(),
    }
}

/// Emits the function `f` of the module with the prefix `module_prefix`.
pub fn emit_function(
    f: &Function,
    module_prefix: &str,
    global_state: &mut GlobalState,
    using_stack: &Stack<String>,
) -> (r: Result<String, CompileError>)
    requires
        old(global_state).const_allocs@.wf(),
    ensures
        final(global_state).const_allocs@.wf(),
        same_definitions(*old(global_state), *final(global_state)),
        match r {
            Ok(text) => function_effect(
                *f,
                module_prefix@,
                defined_of(*old(global_state)),
                prefixes(*using_stack),
                env_with(*old(global_state), Seq::empty()),
            ) == Ok::<(Env, Seq<char>), Failure>(
                (
                    env_with(
                        *final(global_state),
                        value_in(
                            defined_of(*old(global_state)).signatures,
                            module_prefix@ + f.name.name@,
                        ).1,
                    ),
                    text@,
                ),
            ),
            Err(e) => function_effect(
                *f,
                module_prefix@,
                defined_of(*old(global_state)),
                prefixes(*using_stack),
                env_with(*old(global_state), Seq::empty()),
            ) == Err::<(Env, Seq<char>), Failure>(e@),
        },
{
    proof {
        lemma_defined(*global_state);
    }
    let func_name = join(module_prefix, f.name.name.as_str());
    let func_label = function_label(func_name.as_str());
    let func_exit = join(func_label.as_str(), "_exit");
    let signature = match global_state.function_signatures.get(&func_name) {
        Some(signature) => signature.clone(),
        None => {
            return fail(
                &f.span,
                ErrorKind::UnknownFunction,
                func_name.as_str(),
                "",
                render_usings(using_stack).as_str(),
            );
        },
    };
    let mut function_state = FunctionState {
        current_bindings: Vec::new(),
        function_out_stack: signature.out_t,
        function_out_label: func_exit.clone(),
        function_let_bindings: 0,
        function_name: func_name.clone(),
    };
    let mut stack_view: Stack<Type> = Stack::from(&signature.in_t);
    let depth = global_state.inlines.len();
    let body_id = join(func_label.as_str(), "_body");
    proof {
        let ctx = crate::state::context_of(*global_state, function_state, *using_stack);
        let sig = value_in(defined_of(*global_state).signatures, func_name@);
        assert(ctx.bindings =~= Seq::empty());
        assert(ctx == body_context(
            defined_of(*global_state),
            prefixes(*using_stack),
            func_name@,
            sig.1,
            func_label@ + "_exit"@,
        ));
        assert(stack_types(stack_view) =~= sig.0) by {
            assert forall|k: int| 0 <= k < stack_view@.len() implies stack_view@[k]@
                == signature.in_t@[k]@ by {
                assert(cloned(signature.in_t@[k], stack_view@[k]));
            }
        }
        assert(env_of(*global_state, stack_view) == Env {
            stack: sig.0,
            ..env_with(*global_state, Seq::empty())
        });
    }
    let block = match emit_block(
        body_id.as_str(),
        &f.body,
        global_state,
        &mut function_state,
        &mut stack_view,
        using_stack,
        depth,
    ) {
        Ok(block) => block,
        Err(e) => {
            return Err(e);
        },
    };
    proof {
        lemma_eq_seq_views(stack_view@, function_state.function_out_stack@);
    }
    if !stack_view.eq_vec(&function_state.function_out_stack) {
        return fail(
            &f.span,
            ErrorKind::SignatureMismatch,
            "",
            render_types(&function_state.function_out_stack).as_str(),
            render_stack(&stack_view).as_str(),
        );
    }
    assert(env_of(*global_state, stack_view) == env_with(
        *global_state,
        stack_types(stack_view),
    ));
    Ok(
        function_frame(
            func_label.as_str(),
            block.as_str(),
            func_exit.as_str(),
            f.name.name.as_str(),
        ),
    )
}

} // verus!
