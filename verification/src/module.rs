//! Whole modules: the declarations are gathered, then every function is
//! emitted, and the program is put together from the functions that are used.

use crate::arena::ArenaView;
use crate::assembly::{
    global_init, global_init_text, global_storage, global_storage_text, program, program_text,
    DEFAULT_ISR,
};
use crate::ast::{Function, Global, Inline, Module, Span, Statement, StructDef, Using};
use crate::const_defs::{consts_text, emit_consts};
use crate::dep_graph::reachable_in;
use crate::labels::{global_label, global_label_of};
use crate::layout::resolve_struct;
use crate::sizes::{DefView, lemma_view_definitions, size_of_type, struct_name, TypeSize, view_definitions};
use crate::table::NameSet;
use crate::error::{fail, fail_plain, failure, nowhere, plain, CompileError, ErrorKind, Failure};
use crate::function::{emit_function, emit_isr, env_with, function_effect, isr_effect};
use crate::gss::Stack;
use crate::render::{names_text, render_usings};
use crate::scope::prefixes;
use crate::state::{
    defined_of, global_of, same_definitions, signature_of, Defined, Env, GlobalState,
};
use crate::table::{held, stored, NameTable};
use crate::text::join;
use crate::type_parse::{found_text, name_or_none, parsed_signature, parsed_type, unknown_in, unknown_in_signature};
use crate::types::{FunctionType, Type, TypeView};
use std::rc::Rc;
use vstd::prelude::*;
use vstd::std_specs::vec::axiom_vec_index_decreases;
use vstd::string::StringExecFns;

verus! {

/// A struct as it is declared: the prefixes in scope at its declaration,
/// the innermost last, and the declaration.
pub struct Declared {
    pub usings: Seq<Seq<char>>,
    pub def: StructDef,
}

/// The declared structs by qualified name. Each entry holds the using stack
/// at the declaration, and the declaration.
pub type Declarations<'a> = NameTable<(Stack<String>, &'a StructDef)>;

/// The value of an entry of the declarations.
pub open spec fn declared_of(entry: (Stack<String>, &StructDef)) -> Declared {
    Declared { usings: prefixes(entry.0), def: *entry.1 }
}

/// The declarations as entries.
pub open spec fn view_declarations(structs: NameTable<(Stack<String>, &StructDef)>) -> Seq<
    (Seq<char>, Declared),
> {
    structs.mapped(|entry: (Stack<String>, &StructDef)| declared_of(entry))
}

/// The prefix that a `using` of the name brings into scope.
pub open spec fn using_prefix(name: Seq<char>) -> Seq<char> {
    name + "::"@
}

/// The prefixes that the usings bring into scope.
pub open spec fn using_prefixes(usings: Seq<Using>) -> Seq<Seq<char>> {
    Seq::new(usings.len(), |i: int| using_prefix(usings[i].name.name@))
}

/// The using stack with the prefixes of `usings` on top; `None` where the
/// stack cannot hold them.
pub fn scoped_usings(using_stack: &Stack<String>, usings: &Vec<Using>) -> (r: Option<Stack<String>>)
    requires
        using_stack.wf(),
    ensures
        match r {
            Some(scoped) => {
                &&& scoped.wf()
                &&& prefixes(scoped) == prefixes(*using_stack) + using_prefixes(usings@)
                &&& using_stack@.len() + usings@.len() <= usize::MAX
            },
            None => using_stack@.len() + usings@.len() > usize::MAX,
        },
{
    if usings.len() > usize::MAX - using_stack.len {
        return None;
    }
    let mut scoped = using_stack.clone();
    let mut i: usize = 0;
    while i < usings.len()
        invariant
            i <= usings.len(),
            scoped.wf(),
            using_stack.wf(),
            using_stack@.len() + usings@.len() <= usize::MAX,
            scoped@.len() == using_stack@.len() + i,
            prefixes(scoped) == prefixes(*using_stack) + using_prefixes(usings@).take(i as int),
        decreases usings.len() - i,
    {
        let ghost before = prefixes(scoped);
        let prefix = join(usings[i].name.name.as_str(), "::");
        scoped.push(prefix);
        assert(prefixes(scoped) =~= before.push(using_prefix(usings@[i as int].name.name@)));
        assert(prefixes(scoped) =~= prefixes(*using_stack) + using_prefixes(usings@).take(i + 1));
        i += 1;
    }
    assert(using_prefixes(usings@).take(usings.len() as int) =~= using_prefixes(usings@));
    Some(scoped)
}

/// The declarations after the first `n` structs of a module were added, in
/// order, under the prefix of the module. Fails at a name that is declared
/// already.
pub open spec fn own_structs(
    defs: Seq<StructDef>,
    prefix: Seq<char>,
    usings: Seq<Seq<char>>,
    table: Seq<(Seq<char>, Declared)>,
    n: nat,
) -> Result<Seq<(Seq<char>, Declared)>, Failure>
    decreases n,
{
    if n == 0 || n > defs.len() {
        Ok(table)
    } else {
        match own_structs(defs, prefix, usings, table, (n - 1) as nat) {
            Err(e) => Err(e),
            Ok(before) => {
                let name = prefix + defs[n - 1].name.name@;
                if held(before, name) {
                    Err(plain(nowhere(), ErrorKind::DuplicateStruct, name))
                } else {
                    Ok(before.push((name, Declared { usings, def: defs[n - 1] })))
                }
            },
        }
    }
}

/// The declarations after those of the first `n` submodules of `m` were added.
pub open spec fn submodule_structs(
    m: Module,
    prefix: Seq<char>,
    usings: Seq<Seq<char>>,
    table: Seq<(Seq<char>, Declared)>,
    n: nat,
) -> Result<Seq<(Seq<char>, Declared)>, Failure>
    decreases m, n,
{
    if n == 0 || n > m.modules@.len() {
        Ok(table)
    } else {
        match submodule_structs(m, prefix, usings, table, (n - 1) as nat) {
            Err(e) => Err(e),
            Ok(before) => declared_structs(
                m.modules@[n - 1].module,
                prefix + using_prefix(m.modules@[n - 1].name.name@),
                usings,
                before,
            ),
        }
    }
}

/// The declarations after the structs of the module `m` and of its
/// submodules were added to `table`. The structs of a module are qualified by
/// the prefix of the module, and see the prefixes of the modules around them
/// and those that their own module brings into scope. Fails at a name that is
/// declared twice.
pub open spec fn declared_structs(
    m: Module,
    prefix: Seq<char>,
    usings: Seq<Seq<char>>,
    table: Seq<(Seq<char>, Declared)>,
) -> Result<Seq<(Seq<char>, Declared)>, Failure>
    decreases m, m.modules@.len() + 1,
{
    let scoped = usings + using_prefixes(m.usings@);
    if scoped.len() > usize::MAX {
        Err(plain(nowhere(), ErrorKind::ScopeTooDeep, prefix))
    } else {
        match own_structs(m.struct_defs@, prefix, scoped, table, m.struct_defs@.len()) {
            Err(e) => Err(e),
            Ok(own) => submodule_structs(m, prefix, scoped, own, m.modules@.len()),
        }
    }
}

/// Once the structs of some submodules cannot be added, those of more submodules cannot either.
pub proof fn lemma_submodule_structs_fail(
    m: Module,
    prefix: Seq<char>,
    usings: Seq<Seq<char>>,
    table: Seq<(Seq<char>, Declared)>,
    n: nat,
    k: nat,
)
    requires
        submodule_structs(m, prefix, usings, table, n) is Err,
        n <= k <= m.modules@.len(),
    ensures
        submodule_structs(m, prefix, usings, table, k) == submodule_structs(
            m,
            prefix,
            usings,
            table,
            n,
        ),
    decreases k,
{
    if n < k {
        lemma_submodule_structs_fail(m, prefix, usings, table, n, (k - 1) as nat);
    }
}

/// Once some structs of a module cannot be added, more of them cannot either.
pub proof fn lemma_own_structs_fail(
    defs: Seq<StructDef>,
    prefix: Seq<char>,
    usings: Seq<Seq<char>>,
    table: Seq<(Seq<char>, Declared)>,
    n: nat,
    k: nat,
)
    requires
        own_structs(defs, prefix, usings, table, n) is Err,
        n <= k <= defs.len(),
    ensures
        own_structs(defs, prefix, usings, table, k) == own_structs(defs, prefix, usings, table, n),
    decreases k,
{
    if n < k {
        lemma_own_structs_fail(defs, prefix, usings, table, n, (k - 1) as nat);
    }
}

/// Adds the structs that the module `m` and its submodules declare to
/// `structs`, each under its qualified name and with the using stack of its
/// declaration.
pub fn gather_struct_declarations<'a>(
    m: &'a Module,
    module_prefix: &str,
    usings: &Stack<String>,
    structs: &mut NameTable<(Stack<String>, &'a StructDef)>,
) -> (r: Result<(), CompileError>)
    requires
        usings.wf(),
    ensures
        match r {
            Ok(()) => declared_structs(
                *m,
                module_prefix@,
                prefixes(*usings),
                view_declarations(*old(structs)),
            ) == Ok::<Seq<(Seq<char>, Declared)>, Failure>(view_declarations(*final(structs))),
            Err(e) => declared_structs(
                *m,
                module_prefix@,
                prefixes(*usings),
                view_declarations(*old(structs)),
            ) == Err::<Seq<(Seq<char>, Declared)>, Failure>(e@),
        },
    decreases m,
{
    let ghost f = |entry: (Stack<String>, &StructDef)| declared_of(entry);
    let ghost start = view_declarations(*structs);
    let nowhere = Span::new(0, 0);
    let scoped = match scoped_usings(usings, &m.usings) {
        Some(scoped) => scoped,
        None => {
            return fail_plain(&nowhere, ErrorKind::ScopeTooDeep, module_prefix);
        },
    };
    let mut i: usize = 0;
    while i < m.struct_defs.len()
        invariant
            i <= m.struct_defs@.len(),
            scoped.wf(),
            prefixes(scoped) == prefixes(*usings) + using_prefixes(m.usings@),
            prefixes(scoped).len() <= usize::MAX,
            start == view_declarations(*old(structs)),
            nowhere == (Span { start: 0, end: 0 }),
            f == (|entry: (Stack<String>, &StructDef)| declared_of(entry)),
            own_structs(m.struct_defs@, module_prefix@, prefixes(scoped), start, i as nat) == Ok::<
                Seq<(Seq<char>, Declared)>,
                Failure,
            >(structs.mapped(f)),
        decreases m.struct_defs.len() - i,
    {
        let s = &m.struct_defs[i];
        let name = join(module_prefix, s.name.name.as_str());
        proof {
            structs.lemma_mapped(f);
        }
        if structs.contains_key(&name) {
            proof {
                lemma_own_structs_fail(
                    m.struct_defs@,
                    module_prefix@,
                    prefixes(scoped),
                    start,
                    (i + 1) as nat,
                    m.struct_defs@.len(),
                );
            }
            return fail_plain(&nowhere, ErrorKind::DuplicateStruct, name.as_str());
        }
        let ghost before = *structs;
        let entry = (scoped.clone(), s);
        structs.insert(name, entry);
        proof {
            before.lemma_insert_mapped(*structs, name, entry, f);
        }
        i += 1;
    }
    let ghost own = structs.mapped(f);
    let mut j: usize = 0;
    while j < m.modules.len()
        invariant
            j <= m.modules@.len(),
            scoped.wf(),
            prefixes(scoped) == prefixes(*usings) + using_prefixes(m.usings@),
            prefixes(scoped).len() <= usize::MAX,
            start == view_declarations(*old(structs)),
            own_structs(
                m.struct_defs@,
                module_prefix@,
                prefixes(scoped),
                start,
                m.struct_defs@.len(),
            ) == Ok::<Seq<(Seq<char>, Declared)>, Failure>(own),
            f == (|entry: (Stack<String>, &StructDef)| declared_of(entry)),
            submodule_structs(*m, module_prefix@, prefixes(scoped), own, j as nat) == Ok::<
                Seq<(Seq<char>, Declared)>,
                Failure,
            >(structs.mapped(f)),
        decreases m.modules.len() - j,
    {
        proof {
            axiom_vec_index_decreases(m.modules, j as int);
        }
        let module = &m.modules[j];
        let mut prefix = String::from_str(module_prefix);
        prefix.append(module.name.name.as_str());
        prefix.append("::");
        assert(prefix@ =~= module_prefix@ + using_prefix(module.name.name@));
        match gather_struct_declarations(&module.module, prefix.as_str(), &scoped, structs) {
            Ok(()) => {},
            Err(e) => {
                proof {
                    lemma_submodule_structs_fail(
                        *m,
                        module_prefix@,
                        prefixes(scoped),
                        own,
                        (j + 1) as nat,
                        m.modules@.len(),
                    );
                }
                return Err(e);
            },
        }
        j += 1;
    }
    Ok(())
}


/// The functions, the globals and the inline definitions of a program, each as entries.
pub struct Gathered {
    pub signatures: Seq<(Seq<char>, (Seq<TypeView>, Seq<TypeView>))>,
    pub globals: Seq<(Seq<char>, (TypeView, int, int))>,
    pub inlines: Seq<(Seq<char>, Rc<Statement>)>,
}

/// What the global state has gathered.
pub open spec fn gathered_of(global: GlobalState) -> Gathered {
    Gathered {
        signatures: global.function_signatures.mapped(|f: FunctionType| signature_of(f)),
        globals: global.globals.mapped(|g: (Type, isize, isize)| global_of(g)),
        inlines: global.inlines.mapped(|s: Rc<Statement>| s),
    }
}

/// The signatures after the first `n` functions of a module were added.
/// Fails at a qualified name that has a signature already, and at a signature
/// with a type that is not in scope.
pub open spec fn gathered_functions(
    functions: Seq<Function>,
    prefix: Seq<char>,
    usings: Seq<Seq<char>>,
    defined: spec_fn(Seq<char>) -> bool,
    signatures: Seq<(Seq<char>, (Seq<TypeView>, Seq<TypeView>))>,
    n: nat,
) -> Result<Seq<(Seq<char>, (Seq<TypeView>, Seq<TypeView>))>, Failure>
    decreases n,
{
    if n == 0 || n > functions.len() {
        Ok(signatures)
    } else {
        match gathered_functions(functions, prefix, usings, defined, signatures, (n - 1) as nat) {
            Err(e) => Err(e),
            Ok(before) => {
                let f = functions[n - 1];
                let name = prefix + f.name.name@;
                if held(before, name) {
                    Err(plain(nowhere(), ErrorKind::DuplicateFunction, name))
                } else {
                    match parsed_signature(f.type_def, defined, usings) {
                        None => Err(
                            failure(
                                nowhere(),
                                ErrorKind::BadSignature,
                                name,
                                name_or_none(unknown_in_signature(f.type_def, defined, usings)),
                                names_text(usings),
                            ),
                        ),
                        Some(signature) => Ok(stored(before, name, signature)),
                    }
                }
            },
        }
    }
}

/// The globals after the first `n` globals of a module were added. A global
/// of a name that exists already takes its place. Fails at a type that is not
/// in scope.
pub open spec fn gathered_globals(
    globals: Seq<Global>,
    prefix: Seq<char>,
    usings: Seq<Seq<char>>,
    defined: spec_fn(Seq<char>) -> bool,
    table: Seq<(Seq<char>, (TypeView, int, int))>,
    n: nat,
) -> Result<Seq<(Seq<char>, (TypeView, int, int))>, Failure>
    decreases n,
{
    if n == 0 || n > globals.len() {
        Ok(table)
    } else {
        match gathered_globals(globals, prefix, usings, defined, table, (n - 1) as nat) {
            Err(e) => Err(e),
            Ok(before) => {
                let g = globals[n - 1];
                match parsed_type(g.var_type, defined, usings) {
                    None => Err(
                        failure(
                            nowhere(),
                            ErrorKind::UnknownType,
                            prefix + g.name.name@,
                            name_or_none(unknown_in(g.var_type, defined, usings)),
                            names_text(usings),
                        ),
                    ),
                    Some(t) => Ok(
                        stored(before, prefix + g.name.name@, (t, g.size as int, g.val.val as int)),
                    ),
                }
            },
        }
    }
}

/// The inline definitions after the first `n` of a module were added. A
/// definition of a name that exists already takes its place.
pub open spec fn gathered_inlines(
    inlines: Seq<Inline>,
    prefix: Seq<char>,
    table: Seq<(Seq<char>, Rc<Statement>)>,
    n: nat,
) -> Seq<(Seq<char>, Rc<Statement>)>
    decreases n,
{
    if n == 0 || n > inlines.len() {
        table
    } else {
        stored(
            gathered_inlines(inlines, prefix, table, (n - 1) as nat),
            prefix + inlines[n - 1].name.name@,
            inlines[n - 1].statement,
        )
    }
}

/// What is gathered after the definitions of the first `n` submodules of `m` were added.
pub open spec fn gathered_submodules(
    m: Module,
    prefix: Seq<char>,
    usings: Seq<Seq<char>>,
    defined: spec_fn(Seq<char>) -> bool,
    gathered: Gathered,
    n: nat,
) -> Result<Gathered, Failure>
    decreases m, n,
{
    if n == 0 || n > m.modules@.len() {
        Ok(gathered)
    } else {
        match gathered_submodules(m, prefix, usings, defined, gathered, (n - 1) as nat) {
            Err(e) => Err(e),
            Ok(before) => {
                let sub = m.modules@[n - 1];
                let scoped = usings + using_prefixes(sub.module.usings@);
                if scoped.len() > usize::MAX {
                    Err(plain(nowhere(), ErrorKind::ScopeTooDeep, prefix))
                } else {
                    gathered_definitions(
                        sub.module,
                        prefix + using_prefix(sub.name.name@),
                        scoped,
                        defined,
                        before,
                    )
                }
            },
        }
    }
}

/// What is gathered after the definitions of the module `m` were added to
/// `gathered`: those of its submodules first, then its functions, its globals
/// and its inline definitions, each under the prefix of the module. `usings`
/// holds the prefixes in scope in the module, and `defined` says which
/// qualified struct names exist.
pub open spec fn gathered_definitions(
    m: Module,
    prefix: Seq<char>,
    usings: Seq<Seq<char>>,
    defined: spec_fn(Seq<char>) -> bool,
    gathered: Gathered,
) -> Result<Gathered, Failure>
    decreases m, m.modules@.len() + 1,
{
    match gathered_submodules(m, prefix, usings, defined, gathered, m.modules@.len()) {
        Err(e) => Err(e),
        Ok(sub) => match gathered_functions(
            m.functions@,
            prefix,
            usings,
            defined,
            sub.signatures,
            m.functions@.len(),
        ) {
            Err(e) => Err(e),
            Ok(signatures) => match gathered_globals(
                m.globals@,
                prefix,
                usings,
                defined,
                sub.globals,
                m.globals@.len(),
            ) {
                Err(e) => Err(e),
                Ok(globals) => Ok(
                    Gathered {
                        signatures,
                        globals,
                        inlines: gathered_inlines(m.inlines@, prefix, sub.inlines, m.inlines@.len()),
                    },
                ),
            },
        },
    }
}

/// Once the definitions of some submodules cannot be gathered, those of more cannot either.
pub proof fn lemma_gathered_submodules_fail(
    m: Module,
    prefix: Seq<char>,
    usings: Seq<Seq<char>>,
    defined: spec_fn(Seq<char>) -> bool,
    gathered: Gathered,
    n: nat,
    k: nat,
)
    requires
        gathered_submodules(m, prefix, usings, defined, gathered, n) is Err,
        n <= k <= m.modules@.len(),
    ensures
        gathered_submodules(m, prefix, usings, defined, gathered, k) == gathered_submodules(
            m,
            prefix,
            usings,
            defined,
            gathered,
            n,
        ),
    decreases k,
{
    if n < k {
        lemma_gathered_submodules_fail(m, prefix, usings, defined, gathered, n, (k - 1) as nat);
    }
}

/// Once the signatures of some functions cannot be gathered, those of more cannot either.
pub proof fn lemma_gathered_functions_fail(
    functions: Seq<Function>,
    prefix: Seq<char>,
    usings: Seq<Seq<char>>,
    defined: spec_fn(Seq<char>) -> bool,
    signatures: Seq<(Seq<char>, (Seq<TypeView>, Seq<TypeView>))>,
    n: nat,
    k: nat,
)
    requires
        gathered_functions(functions, prefix, usings, defined, signatures, n) is Err,
        n <= k <= functions.len(),
    ensures
        gathered_functions(functions, prefix, usings, defined, signatures, k)
            == gathered_functions(functions, prefix, usings, defined, signatures, n),
    decreases k,
{
    if n < k {
        lemma_gathered_functions_fail(functions, prefix, usings, defined, signatures, n, (k - 1) as nat);
    }
}

/// Once some globals cannot be gathered, more of them cannot either.
pub proof fn lemma_gathered_globals_fail(
    globals: Seq<Global>,
    prefix: Seq<char>,
    usings: Seq<Seq<char>>,
    defined: spec_fn(Seq<char>) -> bool,
    table: Seq<(Seq<char>, (TypeView, int, int))>,
    n: nat,
    k: nat,
)
    requires
        gathered_globals(globals, prefix, usings, defined, table, n) is Err,
        n <= k <= globals.len(),
    ensures
        gathered_globals(globals, prefix, usings, defined, table, k) == gathered_globals(
            globals,
            prefix,
            usings,
            defined,
            table,
            n,
        ),
    decreases k,
{
    if n < k {
        lemma_gathered_globals_fail(globals, prefix, usings, defined, table, n, (k - 1) as nat);
    }
}

/// The parts of the global state that the gathering of definitions leaves alone are the same in both.
pub open spec fn same_emission(a: GlobalState, b: GlobalState) -> bool {
    &&& a.struct_defs == b.struct_defs
    &&& a.const_allocs == b.const_allocs
    &&& a.function_dependencies == b.function_dependencies
    &&& a.label_counter == b.label_counter
}

/// Gathers the functions, the globals and the inline definitions of the
/// module `m` and of its submodules into the global state, each under its
/// qualified name. `using_stack` holds the prefixes in scope in the module.
pub fn gather_definitions(
    m: &Module,
    module_prefix: &str,
    global_state: &mut GlobalState,
    using_stack: &Stack<String>,
) -> (r: Result<(), CompileError>)
    requires
        using_stack.wf(),
    ensures
        same_emission(*old(global_state), *final(global_state)),
        match r {
            Ok(()) => gathered_definitions(
                *m,
                module_prefix@,
                prefixes(*using_stack),
                |k: Seq<char>| old(global_state).struct_defs.has(k),
                gathered_of(*old(global_state)),
            ) == Ok::<Gathered, Failure>(gathered_of(*final(global_state))),
            Err(e) => gathered_definitions(
                *m,
                module_prefix@,
                prefixes(*using_stack),
                |k: Seq<char>| old(global_state).struct_defs.has(k),
                gathered_of(*old(global_state)),
            ) == Err::<Gathered, Failure>(e@),
        },
    decreases m,
{
    let ghost defined = |k: Seq<char>| old(global_state).struct_defs.has(k);
    let ghost usings = prefixes(*using_stack);
    let ghost start = gathered_of(*old(global_state));
    let ghost as_signature = |f: FunctionType| signature_of(f);
    let ghost as_global = |g: (Type, isize, isize)| global_of(g);
    let ghost as_inline = |s: Rc<Statement>| s;
    let mut j: usize = 0;
    while j < m.modules.len()
        invariant
            j <= m.modules@.len(),
            using_stack.wf(),
            usings == prefixes(*using_stack),
            defined == (|k: Seq<char>| old(global_state).struct_defs.has(k)),
            start == gathered_of(*old(global_state)),
            same_emission(*old(global_state), *global_state),
            gathered_submodules(*m, module_prefix@, usings, defined, start, j as nat) == Ok::<
                Gathered,
                Failure,
            >(gathered_of(*global_state)),
        decreases m.modules.len() - j,
    {
        proof {
            axiom_vec_index_decreases(m.modules, j as int);
        }
        let module = &m.modules[j];
        let scoped = match scoped_usings(using_stack, &module.module.usings) {
            Some(scoped) => scoped,
            None => {
                proof {
                    lemma_gathered_submodules_fail(
                        *m,
                        module_prefix@,
                        usings,
                        defined,
                        start,
                        (j + 1) as nat,
                        m.modules@.len(),
                    );
                }
                return fail_plain(
                    &Span { start: 0, end: 0 },
                    ErrorKind::ScopeTooDeep,
                    module_prefix,
                );
            },
        };
        let mut prefix = String::from_str(module_prefix);
        prefix.append(module.name.name.as_str());
        prefix.append("::");
        assert(prefix@ =~= module_prefix@ + using_prefix(module.name.name@));
        assert((|k: Seq<char>| global_state.struct_defs.has(k)) == defined);
        match gather_definitions(&module.module, prefix.as_str(), global_state, &scoped) {
            Ok(()) => {},
            Err(e) => {
                proof {
                    lemma_gathered_submodules_fail(
                        *m,
                        module_prefix@,
                        usings,
                        defined,
                        start,
                        (j + 1) as nat,
                        m.modules@.len(),
                    );
                }
                return Err(e);
            },
        }
        j += 1;
    }
    let ghost sub = gathered_of(*global_state);
    let mut i: usize = 0;
    while i < m.functions.len()
        invariant
            i <= m.functions@.len(),
            using_stack.wf(),
            usings == prefixes(*using_stack),
            defined == (|k: Seq<char>| old(global_state).struct_defs.has(k)),
            as_signature == (|f: FunctionType| signature_of(f)),
            start == gathered_of(*old(global_state)),
            same_emission(*old(global_state), *global_state),
            gathered_submodules(*m, module_prefix@, usings, defined, start, m.modules@.len())
                == Ok::<Gathered, Failure>(sub),
            gathered_of(*global_state).globals == sub.globals,
            gathered_of(*global_state).inlines == sub.inlines,
            gathered_functions(m.functions@, module_prefix@, usings, defined, sub.signatures, i as nat)
                == Ok::<Seq<(Seq<char>, (Seq<TypeView>, Seq<TypeView>))>, Failure>(
                global_state.function_signatures.mapped(as_signature),
            ),
        decreases m.functions.len() - i,
    {
        let f = &m.functions[i];
        let qualified = join(module_prefix, f.name.name.as_str());
        proof {
            global_state.function_signatures.lemma_mapped(as_signature);
            if gathered_functions(
                m.functions@,
                module_prefix@,
                usings,
                defined,
                sub.signatures,
                (i + 1) as nat,
            ) is Err {
                lemma_gathered_functions_fail(
                    m.functions@,
                    module_prefix@,
                    usings,
                    defined,
                    sub.signatures,
                    (i + 1) as nat,
                    m.functions@.len(),
                );
            }
        }
        if global_state.function_signatures.contains_key(&qualified) {
            return fail_plain(
                &Span { start: 0, end: 0 },
                ErrorKind::DuplicateFunction,
                qualified.as_str(),
            );
        }
        assert((|k: Seq<char>| global_state.struct_defs.has(k)) == defined);
        let signature = match Type::parse_func_def(&f.type_def, &global_state.struct_defs, using_stack) {
            Ok(signature) => signature,
            Err(_) => {
                return fail(
                    &Span { start: 0, end: 0 },
                    ErrorKind::BadSignature,
                    qualified.as_str(),
                    found_text(
                        Type::unknown_in_func_def(&f.type_def, &global_state.struct_defs, using_stack),
                    ).as_str(),
                    render_usings(using_stack).as_str(),
                );
            },
        };
        let ghost before = global_state.function_signatures;
        global_state.function_signatures.insert(qualified, signature);
        proof {
            before.lemma_insert_mapped(
                global_state.function_signatures,
                qualified,
                signature,
                as_signature,
            );
        }
        i += 1;
    }
    let ghost signatures = global_state.function_signatures.mapped(as_signature);
    let mut g: usize = 0;
    while g < m.globals.len()
        invariant
            g <= m.globals@.len(),
            using_stack.wf(),
            usings == prefixes(*using_stack),
            defined == (|k: Seq<char>| old(global_state).struct_defs.has(k)),
            as_global == (|g: (Type, isize, isize)| global_of(g)),
            start == gathered_of(*old(global_state)),
            same_emission(*old(global_state), *global_state),
            gathered_submodules(*m, module_prefix@, usings, defined, start, m.modules@.len())
                == Ok::<Gathered, Failure>(sub),
            gathered_functions(
                m.functions@,
                module_prefix@,
                usings,
                defined,
                sub.signatures,
                m.functions@.len(),
            ) == Ok::<Seq<(Seq<char>, (Seq<TypeView>, Seq<TypeView>))>, Failure>(signatures),
            gathered_of(*global_state).signatures == signatures,
            gathered_of(*global_state).inlines == sub.inlines,
            gathered_globals(m.globals@, module_prefix@, usings, defined, sub.globals, g as nat)
                == Ok::<Seq<(Seq<char>, (TypeView, int, int))>, Failure>(
                global_state.globals.mapped(as_global),
            ),
        decreases m.globals.len() - g,
    {
        let global = &m.globals[g];
        proof {
            if gathered_globals(
                m.globals@,
                module_prefix@,
                usings,
                defined,
                sub.globals,
                (g + 1) as nat,
            ) is Err {
                lemma_gathered_globals_fail(
                    m.globals@,
                    module_prefix@,
                    usings,
                    defined,
                    sub.globals,
                    (g + 1) as nat,
                    m.globals@.len(),
                );
            }
        }
        assert((|k: Seq<char>| global_state.struct_defs.has(k)) == defined);
        let qualified = join(module_prefix, global.name.name.as_str());
        let t = match Type::parse(&global.var_type, &global_state.struct_defs, using_stack) {
            Ok(t) => t,
            Err(_) => {
                return fail(
                    &Span { start: 0, end: 0 },
                    ErrorKind::UnknownType,
                    qualified.as_str(),
                    found_text(
                        Type::unknown_name(&global.var_type, &global_state.struct_defs, using_stack),
                    ).as_str(),
                    render_usings(using_stack).as_str(),
                );
            },
        };
        let ghost before = global_state.globals;
        let entry = (t, global.size, global.val.val);
        global_state.globals.insert(qualified, entry);
        proof {
            before.lemma_insert_mapped(global_state.globals, qualified, entry, as_global);
        }
        g += 1;
    }
    let ghost globals = global_state.globals.mapped(as_global);
    let mut k: usize = 0;
    while k < m.inlines.len()
        invariant
            k <= m.inlines@.len(),
            as_inline == (|s: Rc<Statement>| s),
            same_emission(*old(global_state), *global_state),
            gathered_of(*global_state).signatures == signatures,
            gathered_of(*global_state).globals == globals,
            global_state.inlines.mapped(as_inline) == gathered_inlines(
                m.inlines@,
                module_prefix@,
                sub.inlines,
                k as nat,
            ),
        decreases m.inlines.len() - k,
    {
        let inline = &m.inlines[k];
        let ghost before = global_state.inlines;
        let qualified = join(module_prefix, inline.name.name.as_str());
        let statement = inline.statement.clone();
        global_state.inlines.insert(qualified, statement);
        proof {
            before.lemma_insert_mapped(global_state.inlines, qualified, statement, as_inline);
        }
        k += 1;
    }
    Ok(())
}


/// What the emission of functions has made so far.
pub struct Emission {
    /// The state that the emitters change; between two functions its stack is empty.
    pub env: Env,
    /// The text of each function emitted, by qualified name.
    pub functions: Seq<(Seq<char>, Seq<char>)>,
}

/// The emission after the first `n` functions of a module were emitted. The
/// function of the qualified name `isr` is emitted as the interrupt service
/// routine.
pub open spec fn emitted_own(
    functions: Seq<Function>,
    prefix: Seq<char>,
    defs: Defined,
    usings: Seq<Seq<char>>,
    emission: Emission,
    n: nat,
) -> Result<Emission, Failure>
    decreases n,
{
    if n == 0 || n > functions.len() {
        Ok(emission)
    } else {
        match emitted_own(functions, prefix, defs, usings, emission, (n - 1) as nat) {
            Err(e) => Err(e),
            Ok(before) => {
                let f = functions[n - 1];
                let name = prefix + f.name.name@;
                let outcome = if name == "isr"@ {
                    isr_effect(f, defs, usings, before.env)
                } else {
                    function_effect(f, prefix, defs, usings, before.env)
                };
                match outcome {
                    Err(e) => Err(e),
                    Ok((after, text)) => Ok(
                        Emission {
                            env: Env { stack: Seq::empty(), ..after },
                            functions: stored(before.functions, name, text),
                        },
                    ),
                }
            },
        }
    }
}

/// The emission after the functions of the first `n` submodules of `m` were emitted.
pub open spec fn emitted_submodules(
    m: Module,
    prefix: Seq<char>,
    defs: Defined,
    usings: Seq<Seq<char>>,
    emission: Emission,
    n: nat,
) -> Result<Emission, Failure>
    decreases m, n,
{
    if n == 0 || n > m.modules@.len() {
        Ok(emission)
    } else {
        match emitted_submodules(m, prefix, defs, usings, emission, (n - 1) as nat) {
            Err(e) => Err(e),
            Ok(before) => {
                let sub = m.modules@[n - 1];
                let scoped = usings + using_prefixes(sub.module.usings@);
                if scoped.len() > usize::MAX {
                    Err(plain(nowhere(), ErrorKind::ScopeTooDeep, prefix))
                } else {
                    emitted_functions(
                        sub.module,
                        prefix + using_prefix(sub.name.name@),
                        defs,
                        scoped,
                        before,
                    )
                }
            },
        }
    }
}

/// The emission after the functions of the module `m` were emitted: those of
/// its submodules first, then its own, in order.
pub open spec fn emitted_functions(
    m: Module,
    prefix: Seq<char>,
    defs: Defined,
    usings: Seq<Seq<char>>,
    emission: Emission,
) -> Result<Emission, Failure>
    decreases m, m.modules@.len() + 1,
{
    match emitted_submodules(m, prefix, defs, usings, emission, m.modules@.len()) {
        Err(e) => Err(e),
        Ok(sub) => emitted_own(m.functions@, prefix, defs, usings, sub, m.functions@.len()),
    }
}

/// Once the functions of some submodules cannot be emitted, those of more cannot either.
pub proof fn lemma_emitted_submodules_fail(
    m: Module,
    prefix: Seq<char>,
    defs: Defined,
    usings: Seq<Seq<char>>,
    emission: Emission,
    n: nat,
    k: nat,
)
    requires
        emitted_submodules(m, prefix, defs, usings, emission, n) is Err,
        n <= k <= m.modules@.len(),
    ensures
        emitted_submodules(m, prefix, defs, usings, emission, k) == emitted_submodules(
            m,
            prefix,
            defs,
            usings,
            emission,
            n,
        ),
    decreases k,
{
    if n < k {
        lemma_emitted_submodules_fail(m, prefix, defs, usings, emission, n, (k - 1) as nat);
    }
}

/// Once some functions cannot be emitted, more of them cannot either.
pub proof fn lemma_emitted_own_fail(
    functions: Seq<Function>,
    prefix: Seq<char>,
    defs: Defined,
    usings: Seq<Seq<char>>,
    emission: Emission,
    n: nat,
    k: nat,
)
    requires
        emitted_own(functions, prefix, defs, usings, emission, n) is Err,
        n <= k <= functions.len(),
    ensures
        emitted_own(functions, prefix, defs, usings, emission, k) == emitted_own(
            functions,
            prefix,
            defs,
            usings,
            emission,
            n,
        ),
    decreases k,
{
    if n < k {
        lemma_emitted_own_fail(functions, prefix, defs, usings, emission, n, (k - 1) as nat);
    }
}

/// The texts of a table of functions.
pub open spec fn view_functions(function_map: NameTable<String>) -> Seq<(Seq<char>, Seq<char>)> {
    function_map.mapped(|text: String| text@)
}

/// The emission that the global state and the table of functions stand for.
pub open spec fn emission_of(global: GlobalState, function_map: NameTable<String>) -> Emission {
    Emission { env: env_with(global, Seq::empty()), functions: view_functions(function_map) }
}

/// Emits the functions of the module `m` and of its submodules into
/// `function_map`, each under its qualified name.
pub fn emit_functions(
    m: &Module,
    module_prefix: &str,
    global_state: &mut GlobalState,
    function_map: &mut NameTable<String>,
    using_stack: &Stack<String>,
) -> (r: Result<(), CompileError>)
    requires
        using_stack.wf(),
        old(global_state).const_allocs@.wf(),
    ensures
        final(global_state).const_allocs@.wf(),
        same_definitions(*old(global_state), *final(global_state)),
        match r {
            Ok(()) => emitted_functions(
                *m,
                module_prefix@,
                defined_of(*old(global_state)),
                prefixes(*using_stack),
                emission_of(*old(global_state), *old(function_map)),
            ) == Ok::<Emission, Failure>(
                emission_of(*final(global_state), *final(function_map)),
            ),
            Err(e) => emitted_functions(
                *m,
                module_prefix@,
                defined_of(*old(global_state)),
                prefixes(*using_stack),
                emission_of(*old(global_state), *old(function_map)),
            ) == Err::<Emission, Failure>(e@),
        },
    decreases m,
{
    let ghost defs = defined_of(*old(global_state));
    let ghost usings = prefixes(*using_stack);
    let ghost start = emission_of(*old(global_state), *old(function_map));
    let ghost as_text = |text: String| text@;
    let mut j: usize = 0;
    while j < m.modules.len()
        invariant
            j <= m.modules@.len(),
            using_stack.wf(),
            global_state.const_allocs@.wf(),
            same_definitions(*old(global_state), *global_state),
            defs == defined_of(*old(global_state)),
            usings == prefixes(*using_stack),
            start == emission_of(*old(global_state), *old(function_map)),
            emitted_submodules(*m, module_prefix@, defs, usings, start, j as nat) == Ok::<Emission, Failure>(emission_of(*global_state, *function_map)),
        decreases m.modules.len() - j,
    {
        proof {
            axiom_vec_index_decreases(m.modules, j as int);
        }
        let module = &m.modules[j];
        let scoped = match scoped_usings(using_stack, &module.module.usings) {
            Some(scoped) => scoped,
            None => {
                proof {
                    lemma_emitted_submodules_fail(
                        *m,
                        module_prefix@,
                        defs,
                        usings,
                        start,
                        (j + 1) as nat,
                        m.modules@.len(),
                    );
                }
                return fail_plain(
                    &Span { start: 0, end: 0 },
                    ErrorKind::ScopeTooDeep,
                    module_prefix,
                );
            },
        };
        let mut prefix = String::from_str(module_prefix);
        prefix.append(module.name.name.as_str());
        prefix.append("::");
        assert(prefix@ =~= module_prefix@ + using_prefix(module.name.name@));
        assert(defined_of(*global_state) == defs);
        match emit_functions(&module.module, prefix.as_str(), global_state, function_map, &scoped) {
            Ok(()) => {},
            Err(e) => {
                proof {
                    lemma_emitted_submodules_fail(
                        *m,
                        module_prefix@,
                        defs,
                        usings,
                        start,
                        (j + 1) as nat,
                        m.modules@.len(),
                    );
                }
                return Err(e);
            },
        }
        j += 1;
    }
    let ghost sub = emission_of(*global_state, *function_map);
    let mut i: usize = 0;
    while i < m.functions.len()
        invariant
            i <= m.functions@.len(),
            using_stack.wf(),
            global_state.const_allocs@.wf(),
            same_definitions(*old(global_state), *global_state),
            defs == defined_of(*old(global_state)),
            usings == prefixes(*using_stack),
            start == emission_of(*old(global_state), *old(function_map)),
            as_text == (|text: String| text@),
            emitted_submodules(*m, module_prefix@, defs, usings, start, m.modules@.len()) == Ok::<Emission, Failure>(sub),
            emitted_own(m.functions@, module_prefix@, defs, usings, sub, i as nat) == Ok::<Emission, Failure>(emission_of(*global_state, *function_map)),
        decreases m.functions.len() - i,
    {
        let f = &m.functions[i];
        let name = join(module_prefix, f.name.name.as_str());
        assert(defined_of(*global_state) == defs);
        let emitted = if name == String::from_str("isr") {
            emit_isr(f, global_state, using_stack)
        } else {
            emit_function(f, module_prefix, global_state, using_stack)
        };
        let text = match emitted {
            Ok(text) => text,
            Err(e) => {
                proof {
                    lemma_emitted_own_fail(
                        m.functions@,
                        module_prefix@,
                        defs,
                        usings,
                        sub,
                        (i + 1) as nat,
                        m.functions@.len(),
                    );
                }
                return Err(e);
            },
        };
        let ghost before = *function_map;
        function_map.insert(name, text);
        proof {
            before.lemma_insert_mapped(*function_map, name, text, as_text);
        }
        i += 1;
    }
    Ok(())
}


/// The prefixes in scope in the root module: the empty prefix, and above it
/// those that the module brings into scope.
pub open spec fn root_usings(m: Module) -> Seq<Seq<char>> {
    seq![Seq::<char>::empty()] + using_prefixes(m.usings@)
}

/// The layouts after the first `n` declared structs were resolved, in the
/// order of their declaration. A struct that was resolved on the way to
/// another is not resolved again.
pub open spec fn layouts(
    decls: Seq<(Seq<char>, Declared)>,
    defs: Seq<(Seq<char>, DefView)>,
    seen: Seq<Seq<char>>,
    n: nat,
) -> Result<(Seq<(Seq<char>, DefView)>, Seq<Seq<char>>), Failure>
    decreases n,
{
    if n == 0 || n > decls.len() {
        Ok((defs, seen))
    } else {
        match layouts(decls, defs, seen, (n - 1) as nat) {
            Err(e) => Err(e),
            Ok((before, begun)) => if begun.contains(decls[n - 1].0) {
                Ok((before, begun))
            } else {
                match resolve_struct(decls[n - 1].0, before, decls, begun, decls.len()) {
                    Err(e) => Err(e.failure),
                    Ok((after, then, _)) => Ok((after, then)),
                }
            },
        }
    }
}

/// Once some layouts cannot be resolved, more of them cannot either.
pub proof fn lemma_layouts_fail(
    decls: Seq<(Seq<char>, Declared)>,
    defs: Seq<(Seq<char>, DefView)>,
    seen: Seq<Seq<char>>,
    n: nat,
    k: nat,
)
    requires
        layouts(decls, defs, seen, n) is Err,
        n <= k <= decls.len(),
    ensures
        layouts(decls, defs, seen, k) == layouts(decls, defs, seen, n),
    decreases k,
{
    if n < k {
        lemma_layouts_fail(decls, defs, seen, n, (k - 1) as nat);
    }
}

/// The storage of the first `n` globals and the text that initialises them.
/// A global takes the size of its type for each of its elements.
pub open spec fn globals_text(
    globals: Seq<(Seq<char>, (TypeView, int, int))>,
    defs: Seq<(Seq<char>, DefView)>,
    n: nat,
) -> Result<(Seq<char>, Seq<char>), Failure>
    decreases n,
{
    if n == 0 || n > globals.len() {
        Ok((Seq::empty(), Seq::empty()))
    } else {
        match globals_text(globals, defs, (n - 1) as nat) {
            Err(e) => Err(e),
            Ok((storage, inits)) => {
                let (name, (t, count, init)) = globals[n - 1];
                match size_of_type(t, defs) {
                    None => Err(plain(nowhere(), ErrorKind::UnknownStruct, struct_name(t))),
                    Some(size) => if count < 0 {
                        Err(plain(nowhere(), ErrorKind::InvalidSize, name))
                    } else if size * count > usize::MAX {
                        Err(plain(nowhere(), ErrorKind::SizeOverflow, name))
                    } else {
                        Ok(
                            (
                                storage + global_storage_text(
                                    global_label_of(name),
                                    (size * count) as nat,
                                ),
                                inits + global_init_text(init, global_label_of(name)),
                            ),
                        )
                    },
                }
            },
        }
    }
}

/// Once the text of some globals cannot be made, that of more cannot either.
pub proof fn lemma_globals_text_fails(
    globals: Seq<(Seq<char>, (TypeView, int, int))>,
    defs: Seq<(Seq<char>, DefView)>,
    n: nat,
    k: nat,
)
    requires
        globals_text(globals, defs, n) is Err,
        n <= k <= globals.len(),
    ensures
        globals_text(globals, defs, k) == globals_text(globals, defs, n),
    decreases k,
{
    if n < k {
        lemma_globals_text_fails(globals, defs, n, (k - 1) as nat);
    }
}

/// The functions from which a program starts: the entry point and the interrupt service routine.
pub open spec fn program_roots() -> Set<Seq<char>> {
    Set::empty().insert("isr"@).insert("main"@)
}

/// The texts of those of the first `n` functions that are used: that can be
/// reached from the roots of the program along the recorded calls.
pub open spec fn used_text(
    functions: Seq<(Seq<char>, Seq<char>)>,
    edges: Set<(Seq<char>, Seq<char>)>,
    n: nat,
) -> Seq<char>
    decreases n,
{
    if n == 0 || n > functions.len() {
        Seq::empty()
    } else if reachable_in(program_roots(), edges, functions[n - 1].0) {
        used_text(functions, edges, (n - 1) as nat) + functions[n - 1].1
    } else {
        used_text(functions, edges, (n - 1) as nat)
    }
}

/// The assembly text of the program that the root module `m` stands for, or
/// the place and kind of the first error.
///
/// The structs are declared and laid out, the definitions gathered, and every
/// function emitted. The text is the start of the program with the storage
/// and the initialisation of the globals, an empty interrupt service routine
/// where the program defines none, the constants, and the functions that are
/// used.
pub open spec fn root_module_text(m: Module) -> Result<Seq<char>, Failure> {
    let none = Seq::<char>::empty();
    match declared_structs(m, none, seq![none], Seq::empty()) {
        Err(e) => Err(e),
        Ok(decls) => match layouts(decls, Seq::empty(), Seq::empty(), decls.len()) {
            Err(e) => Err(e),
            Ok((defs, _)) => match gathered_definitions(
                m,
                none,
                root_usings(m),
                |k: Seq<char>| held(defs, k),
                Gathered { signatures: Seq::empty(), globals: Seq::empty(), inlines: Seq::empty() },
            ) {
                Err(e) => Err(e),
                Ok(gathered) => match globals_text(gathered.globals, defs, gathered.globals.len()) {
                    Err(e) => Err(e),
                    Ok((storage, inits)) => match emitted_functions(
                        m,
                        none,
                        Defined {
                            struct_defs: defs,
                            signatures: gathered.signatures,
                            globals: gathered.globals,
                            inlines: gathered.inlines,
                        },
                        root_usings(m),
                        Emission {
                            env: Env {
                                stack: Seq::empty(),
                                counter: 0,
                                arena: ArenaView { id: 0, allocs: Seq::empty() },
                                edges: Set::empty(),
                            },
                            functions: Seq::empty(),
                        },
                    ) {
                        Err(e) => Err(e),
                        Ok(emission) => Ok(
                            program_text(inits, storage) + (if held(emission.functions, "isr"@) {
                                Seq::empty()
                            } else {
                                DEFAULT_ISR@
                            }) + consts_text(
                                emission.env.arena.allocs,
                                emission.env.arena.allocs.len(),
                            ) + used_text(
                                emission.functions,
                                emission.env.edges,
                                emission.functions.len(),
                            ),
                        ),
                    },
                },
            },
        },
    }
}

/// Lays out every declared struct.
fn resolve_layouts(
    struct_names: &NameTable<(Stack<String>, &StructDef)>,
    global_state: &mut GlobalState,
) -> (r: Result<(), CompileError>)
    requires
        old(global_state).struct_defs.entries@.len() == 0,
    ensures
        final(global_state).const_allocs == old(global_state).const_allocs,
        final(global_state).function_signatures == old(global_state).function_signatures,
        final(global_state).function_dependencies == old(global_state).function_dependencies,
        final(global_state).globals == old(global_state).globals,
        final(global_state).inlines == old(global_state).inlines,
        final(global_state).label_counter == old(global_state).label_counter,
        match r {
            Ok(()) => layouts(
                view_declarations(*struct_names),
                Seq::empty(),
                Seq::empty(),
                struct_names.entries@.len(),
            ) matches Ok((defs, _)) && defs == view_definitions(final(global_state).struct_defs),
            Err(e) => layouts(
                view_declarations(*struct_names),
                Seq::empty(),
                Seq::empty(),
                struct_names.entries@.len(),
            ) matches Err(failure) && failure == e@,
        },
{
    let ghost decls = view_declarations(*struct_names);
    let mut seen = NameSet::new();
    let depth = struct_names.len();
    assert(view_definitions(global_state.struct_defs) =~= Seq::empty());
    let mut i: usize = 0;
    while i < struct_names.len()
        invariant
            i <= struct_names.entries@.len(),
            depth == struct_names.entries@.len(),
            decls == view_declarations(*struct_names),
            decls.len() == struct_names.entries@.len(),
            global_state.const_allocs == old(global_state).const_allocs,
            global_state.function_signatures == old(global_state).function_signatures,
            global_state.function_dependencies == old(global_state).function_dependencies,
            global_state.globals == old(global_state).globals,
            global_state.inlines == old(global_state).inlines,
            global_state.label_counter == old(global_state).label_counter,
            layouts(decls, Seq::empty(), Seq::empty(), i as nat) == Ok::<
                (Seq<(Seq<char>, DefView)>, Seq<Seq<char>>),
                Failure,
            >((view_definitions(global_state.struct_defs), seen.seq())),
        decreases struct_names.entries@.len() - i,
    {
        let name = &struct_names.entries[i].0;
        assert(decls[i as int].0 == name@);
        if !seen.contains(name) {
            match Type::resolve_struct_size(
                name.as_str(),
                &mut global_state.struct_defs,
                struct_names,
                &mut seen,
                depth,
            ) {
                Ok(_) => {},
                Err(e) => {
                    proof {
                        lemma_layouts_fail(
                            decls,
                            Seq::empty(),
                            Seq::empty(),
                            (i + 1) as nat,
                            decls.len(),
                        );
                    }
                    return Err(e);
                },
            }
        }
        i += 1;
    }
    Ok(())
}

/// The storage of the globals and the text that initialises them.
fn emit_globals(global_state: &GlobalState) -> (r: Result<(String, String), CompileError>)
    ensures
        match r {
            Ok((storage, inits)) => globals_text(
                defined_of(*global_state).globals,
                defined_of(*global_state).struct_defs,
                global_state.globals.entries@.len(),
            ) == Ok::<(Seq<char>, Seq<char>), Failure>((storage@, inits@)),
            Err(e) => globals_text(
                defined_of(*global_state).globals,
                defined_of(*global_state).struct_defs,
                global_state.globals.entries@.len(),
            ) == Err::<(Seq<char>, Seq<char>), Failure>(e@),
        },
{
    let ghost globals = defined_of(*global_state).globals;
    let ghost defs = defined_of(*global_state).struct_defs;
    let mut storage = String::new();
    let mut inits = String::new();
    let mut i: usize = 0;
    while i < global_state.globals.len()
        invariant
            i <= global_state.globals.entries@.len(),
            globals == defined_of(*global_state).globals,
            defs == defined_of(*global_state).struct_defs,
            globals.len() == global_state.globals.entries@.len(),
            globals_text(globals, defs, i as nat) == Ok::<(Seq<char>, Seq<char>), Failure>(
                (storage@, inits@),
            ),
        decreases global_state.globals.entries@.len() - i,
    {
        let entry = &global_state.globals.entries[i];
        assert(globals[i as int] == (entry.0@, global_of(entry.1)));
        proof {
            if globals_text(globals, defs, (i + 1) as nat) is Err {
                lemma_globals_text_fails(globals, defs, (i + 1) as nat, globals.len());
            }
        }
        let label = global_label(entry.0.as_str());
        let size = match entry.1.0.type_size(&global_state.struct_defs) {
            Ok(size) => size,
            Err(_) => {
                return fail_plain(
                    &Span { start: 0, end: 0 },
                    ErrorKind::UnknownStruct,
                    entry.1.0.struct_name().as_str(),
                );
            },
        };
        if entry.1.1 < 0 {
            return fail_plain(&Span { start: 0, end: 0 }, ErrorKind::InvalidSize, entry.0.as_str());
        }
        let words = match size.checked_mul(entry.1.1 as usize) {
            Some(words) => words,
            None => {
                return fail_plain(
                    &Span { start: 0, end: 0 },
                    ErrorKind::SizeOverflow,
                    entry.0.as_str(),
                );
            },
        };
        storage.append(global_storage(label.as_str(), words).as_str());
        inits.append(global_init(entry.1.2, label.as_str()).as_str());
        i += 1;
    }
    Ok((storage, inits))
}

/// The texts of the functions that are used, in the order of the table.
fn emit_used(function_map: &NameTable<String>, global_state: &GlobalState) -> (r: String)
    requires
        global_state.function_dependencies.root_set() == program_roots(),
    ensures
        r@ == used_text(
            view_functions(*function_map),
            global_state.function_dependencies.edge_set(),
            function_map.entries@.len(),
        ),
{
    let used = global_state.function_dependencies.calculate_used();
    let ghost functions = view_functions(*function_map);
    let ghost edges = global_state.function_dependencies.edge_set();
    let mut r = String::new();
    let mut i: usize = 0;
    while i < function_map.len()
        invariant
            i <= function_map.entries@.len(),
            functions == view_functions(*function_map),
            edges == global_state.function_dependencies.edge_set(),
            global_state.function_dependencies.root_set() == program_roots(),
            forall|node: Seq<char>|
                used.contains_name(node) == global_state.function_dependencies.reachable(node),
            r@ == used_text(functions, edges, i as nat),
        decreases function_map.entries@.len() - i,
    {
        let entry = &function_map.entries[i];
        assert(functions[i as int] == (entry.0@, entry.1@));
        proof {
            global_state.function_dependencies.lemma_reachable_in(entry.0@);
        }
        if used.contains(&entry.0) {
            r.append(entry.1.as_str());
        }
        i += 1;
    }
    r
}

/// Compiles the root module `m` to assembly text.
pub fn emit_root_module(m: &Module) -> (r: Result<String, CompileError>)
    ensures
        match r {
            Ok(text) => root_module_text(*m) == Ok::<Seq<char>, Failure>(text@),
            Err(e) => root_module_text(*m) == Err::<Seq<char>, Failure>(e@),
        },
{
    proof {
        reveal_strlit("");
        assert(""@ =~= Seq::<char>::empty());
    }
    let nowhere = Span::new(0, 0);
    let mut global_state = GlobalState::new();
    let ghost fresh = global_state.function_dependencies;
    let mut base: Stack<String> = Stack::empty();
    base.push(String::new());
    assert(prefixes(base) =~= seq![Seq::<char>::empty()]);
    let mut struct_names: NameTable<(Stack<String>, &StructDef)> = NameTable::new();
    assert(view_declarations(struct_names) =~= Seq::empty());
    match gather_struct_declarations(m, "", &base, &mut struct_names) {
        Ok(()) => {},
        Err(e) => {
            return Err(e);
        },
    }
    match resolve_layouts(&struct_names, &mut global_state) {
        Ok(()) => {},
        Err(e) => {
            return Err(e);
        },
    }
    let using_stack = match scoped_usings(&base, &m.usings) {
        Some(using_stack) => using_stack,
        None => {
            proof {
                reveal_strlit("");
            }
            return fail_plain(&nowhere, ErrorKind::ScopeTooDeep, "");
        },
    };
    proof {
        lemma_view_definitions(global_state.struct_defs);
        assert(gathered_of(global_state).signatures =~= Seq::empty());
        assert(gathered_of(global_state).globals =~= Seq::empty());
        assert(gathered_of(global_state).inlines =~= Seq::empty());
    }
    let ghost defs = view_definitions(global_state.struct_defs);
    match gather_definitions(m, "", &mut global_state, &using_stack) {
        Ok(()) => {},
        Err(e) => {
            return Err(e);
        },
    }
    let (storage, inits) = match emit_globals(&global_state) {
        Ok(texts) => texts,
        Err(e) => {
            return Err(e);
        },
    };
    let mut prog = program(inits.as_str(), storage.as_str());
    global_state.function_dependencies.add_root(String::from_str("isr"));
    global_state.function_dependencies.add_root(String::from_str("main"));
    assert(global_state.function_dependencies.root_set() =~= program_roots());
    assert(global_state.function_dependencies.edge_set() =~= Set::empty()) by {
        assert forall|e: (Seq<char>, Seq<char>)|
            !global_state.function_dependencies.edge_set().contains(e) by {
            assert(!fresh.has_edge(e.0, e.1));
            assert(global_state.function_dependencies.edges == fresh.edges);
        }
    }
    let mut function_map: NameTable<String> = NameTable::new();
    assert(view_functions(function_map) =~= Seq::empty());
    match emit_functions(m, "", &mut global_state, &mut function_map, &using_stack) {
        Ok(()) => {},
        Err(e) => {
            return Err(e);
        },
    }
    proof {
        function_map.lemma_mapped(|text: String| text@);
    }
    if !function_map.contains_key(&String::from_str("isr")) {
        prog.append(DEFAULT_ISR);
    } else {
        assert(prog@ + Seq::<char>::empty() =~= prog@);
    }
    prog.append(emit_consts(&global_state).as_str());
    prog.append(emit_used(&function_map, &global_state).as_str());
    Ok(prog)
}

} // verus!
