//! The state of a compilation, and what the emitters read and change of it.

use crate::arena::{ArenaView, ConstAllocationArena};
use crate::ast::Statement;
use crate::error::{CompileError, Failure};
use crate::gss::eq_seq;
use crate::dep_graph::DependencyGraph;
use crate::gss::Stack;
use crate::scope::prefixes;
use crate::sizes::{def_view, lemma_view_definitions, view_definitions, DefView, StructDefinition};
use crate::table::{held, value_in, NameTable};
use crate::type_check::stack_types;
use crate::types::{view_types, FunctionType, Type, TypeView};
use std::rc::Rc;
use vstd::prelude::*;
use vstd::std_specs::cmp::PartialEqSpec;

verus! {

/// What is known of the whole program while its functions are emitted.
pub struct GlobalState {
    pub const_allocs: ConstAllocationArena,
    pub struct_defs: NameTable<StructDefinition>,
    pub function_signatures: NameTable<FunctionType>,
    pub function_dependencies: DependencyGraph,
    /// For each global variable its type, the number of its elements and its initial value.
    pub globals: NameTable<(Type, isize, isize)>,
    /// For each inline definition the statement that takes its place.
    pub inlines: NameTable<Rc<Statement>>,
    /// The number of labels generated so far.
    pub label_counter: usize,
}

/// What is known of the function that is being emitted.
pub struct FunctionState {
    /// The `let` bindings in scope with their types, the innermost last.
    pub current_bindings: Vec<(String, Type)>,
    pub function_out_stack: Vec<Type>,
    pub function_out_label: String,
    /// The number of `let` bindings in scope.
    pub function_let_bindings: usize,
    pub function_name: String,
}

/// The names and types of bindings.
pub open spec fn view_bindings(bindings: Seq<(String, Type)>) -> Seq<(Seq<char>, TypeView)> {
    Seq::new(bindings.len(), |i: int| (bindings[i].0@, bindings[i].1@))
}

/// What the emitters read and leave as it is.
pub struct Context {
    pub defs: Defined,
    /// The prefixes in scope, the innermost last.
    pub usings: Seq<Seq<char>>,
    pub function_name: Seq<char>,
    pub out_stack: Seq<TypeView>,
    pub out_label: Seq<char>,
    /// The `let` bindings in scope, the innermost last.
    pub bindings: Seq<(Seq<char>, TypeView)>,
}

/// The value of a function's entry: what it takes and what it leaves.
pub open spec fn signature_of(f: FunctionType) -> (Seq<TypeView>, Seq<TypeView>) {
    f@
}

/// The value of a global's entry: its type, the number of its elements and its initial value.
pub open spec fn global_of(g: (Type, isize, isize)) -> (TypeView, int, int) {
    (g.0@, g.1 as int, g.2 as int)
}

/// The definitions of a program, each kind as entries by qualified name:
/// what the emission of its functions reads.
pub struct Defined {
    /// The layouts of the structs.
    pub struct_defs: Seq<(Seq<char>, DefView)>,
    /// What each function takes and leaves.
    pub signatures: Seq<(Seq<char>, (Seq<TypeView>, Seq<TypeView>))>,
    /// For each global its type, the number of its elements and its initial value.
    pub globals: Seq<(Seq<char>, (TypeView, int, int))>,
    /// For each inline definition the statement that takes its place.
    pub inlines: Seq<(Seq<char>, Rc<Statement>)>,
}

/// The definitions that the global state holds.
pub open spec fn defined_of(global: GlobalState) -> Defined {
    Defined {
        struct_defs: view_definitions(global.struct_defs),
        signatures: global.function_signatures.mapped(|f: FunctionType| signature_of(f)),
        globals: global.globals.mapped(|g: (Type, isize, isize)| global_of(g)),
        inlines: global.inlines.mapped(|s: Rc<Statement>| s),
    }
}

/// What the tables of the global state hold, the definitions hold, and with the same values.
pub proof fn lemma_defined(global: GlobalState)
    ensures
        forall|name: Seq<char>|
            held(defined_of(global).struct_defs, name) == global.struct_defs.has(name),
        forall|name: Seq<char>|
            global.struct_defs.has(name) ==> value_in(defined_of(global).struct_defs, name)
                == def_view(global.struct_defs.value(name)),
        forall|name: Seq<char>|
            held(defined_of(global).signatures, name) == global.function_signatures.has(name),
        forall|name: Seq<char>|
            global.function_signatures.has(name) ==> value_in(defined_of(global).signatures, name)
                == global.function_signatures.value(name)@,
        forall|name: Seq<char>| held(defined_of(global).globals, name) == global.globals.has(name),
        forall|name: Seq<char>|
            global.globals.has(name) ==> value_in(defined_of(global).globals, name) == global_of(
                global.globals.value(name),
            ),
        forall|name: Seq<char>| held(defined_of(global).inlines, name) == global.inlines.has(name),
        forall|name: Seq<char>|
            global.inlines.has(name) ==> value_in(defined_of(global).inlines, name)
                == global.inlines.value(name),
        (|k: Seq<char>| global.struct_defs.has(k)) == (|k: Seq<char>|
            held(defined_of(global).struct_defs, k)),
        (|k: Seq<char>| global.function_signatures.has(k)) == (|k: Seq<char>|
            held(defined_of(global).signatures, k)),
        (|k: Seq<char>| global.globals.has(k)) == (|k: Seq<char>|
            held(defined_of(global).globals, k)),
        (|k: Seq<char>| global.inlines.has(k)) == (|k: Seq<char>|
            held(defined_of(global).inlines, k)),
        defined_of(global).inlines.len() == global.inlines.entries@.len(),
{
    lemma_view_definitions(global.struct_defs);
    global.function_signatures.lemma_mapped(|f: FunctionType| signature_of(f));
    global.globals.lemma_mapped(|g: (Type, isize, isize)| global_of(g));
    global.inlines.lemma_mapped(|s: Rc<Statement>| s);
    assert((|k: Seq<char>| global.function_signatures.has(k)) =~= (|k: Seq<char>|
        held(defined_of(global).signatures, k)));
    assert((|k: Seq<char>| global.globals.has(k)) =~= (|k: Seq<char>|
        held(defined_of(global).globals, k)));
    assert((|k: Seq<char>| global.inlines.has(k)) =~= (|k: Seq<char>|
        held(defined_of(global).inlines, k)));
}

/// What the emitters change.
pub struct Env {
    /// The abstract stack, bottom first.
    pub stack: Seq<TypeView>,
    /// The number of labels generated so far.
    pub counter: nat,
    pub arena: ArenaView,
    /// The calls recorded so far, each as caller and callee.
    pub edges: Set<(Seq<char>, Seq<char>)>,
}

impl FunctionState {
    /// The count of bindings is the number of bindings.
    pub open spec fn wf(&self) -> bool {
        self.function_let_bindings == self.current_bindings@.len()
    }
}

/// The context that the three states make.
pub open spec fn context_of(global: GlobalState, function: FunctionState, usings: Stack<String>) -> Context {
    Context {
        defs: defined_of(global),
        usings: prefixes(usings),
        function_name: function.function_name@,
        out_stack: view_types(function.function_out_stack@),
        out_label: function.function_out_label@,
        bindings: view_bindings(function.current_bindings@),
    }
}

/// The changing part of the states.
pub open spec fn env_of(global: GlobalState, stack: Stack<Type>) -> Env {
    Env {
        stack: stack_types(stack),
        counter: global.label_counter as nat,
        arena: global.const_allocs@,
        edges: global.function_dependencies.edge_set(),
    }
}

/// The parts of the global state that the emitters leave alone are the same in both.
pub open spec fn same_definitions(a: GlobalState, b: GlobalState) -> bool {
    &&& a.struct_defs == b.struct_defs
    &&& a.function_signatures == b.function_signatures
    &&& a.globals == b.globals
    &&& a.inlines == b.inlines
    &&& a.function_dependencies.roots == b.function_dependencies.roots
}

/// The function state is the same in both, bindings included.
pub open spec fn same_function(a: FunctionState, b: FunctionState) -> bool {
    &&& a.current_bindings@ == b.current_bindings@
    &&& a.function_out_stack == b.function_out_stack
    &&& a.function_out_label == b.function_out_label
    &&& a.function_let_bindings == b.function_let_bindings
    &&& a.function_name == b.function_name
}


/// What an emitter gives: the state afterwards and the text, or the place and kind of the error.
pub type Outcome = Result<(Env, Seq<char>), Failure>;

/// The result of an emitter is what `outcome` says: on success the text, with
/// the state left as stated; on failure the error at its place.
pub open spec fn emitted(
    result: Result<String, CompileError>,
    outcome: Outcome,
    global: GlobalState,
    stack: Stack<Type>,
) -> bool {
    match result {
        Ok(text) => outcome == Ok::<(Env, Seq<char>), Failure>((env_of(global, stack), text@)),
        Err(e) => outcome == Err::<(Env, Seq<char>), Failure>(e@),
    }
}

/// What the emitters need of the states that they work on.
pub open spec fn ready(global: GlobalState, function: FunctionState, stack: Stack<Type>) -> bool {
    &&& stack.wf()
    &&& function.wf()
    &&& global.const_allocs@.wf()
}

/// Two lists of types are equal item by item exactly where their values are equal.
pub proof fn lemma_eq_seq_views(a: Seq<Type>, b: Seq<Type>)
    ensures
        eq_seq(a, b) == (view_types(a) == view_types(b)),
{
    if eq_seq(a, b) {
        assert(view_types(a) =~= view_types(b)) by {
            assert forall|i: int| 0 <= i < a.len() implies a[i]@ == b[i]@ by {
                assert(a[i].eq_spec(&b[i]));
            }
        }
    }
    if view_types(a) == view_types(b) {
        assert(a.len() == view_types(a).len());
        assert(b.len() == view_types(b).len());
        assert forall|i: int| 0 <= i < a.len() implies (#[trigger] a[i]).eq_spec(&b[i]) by {
            assert(view_types(a)[i] == view_types(b)[i]);
        }
    }
}


impl GlobalState {
    /// The state of a compilation that has gathered and emitted nothing yet.
    pub fn new() -> (global: GlobalState)
        ensures
            global.const_allocs@ == (ArenaView { id: 0, allocs: Seq::empty() }),
            global.const_allocs@.wf(),
            global.struct_defs.entries@.len() == 0,
            global.function_signatures.entries@.len() == 0,
            global.globals.entries@.len() == 0,
            global.inlines.entries@.len() == 0,
            global.function_dependencies.roots.seq().len() == 0,
            forall|from: Seq<char>, to: Seq<char>| !global.function_dependencies.has_edge(from, to),
            global.label_counter == 0,
    {
        GlobalState {
            const_allocs: ConstAllocationArena::new(),
            struct_defs: NameTable::new(),
            function_signatures: NameTable::new(),
            function_dependencies: DependencyGraph::new(),
            globals: NameTable::new(),
            inlines: NameTable::new(),
            label_counter: 0,
        }
    }
}

} // verus!
