use toast::ast::{
    Block, FuncType, Function, Global, Identifier, If, IntLiteral, Let, LexType, Module,
    NamedModule, Operator, Span, Statement, StructDef, StructMember,
};
use toast::compile::{collapse_with, Pattern};
use toast::error::{fail, fail_plain, render_message, CompileError, ErrorKind};
use toast::function::emit_function;
use toast::gss::Stack;
use toast::module::{emit_root_module, gather_definitions, gather_struct_declarations};
use toast::operator::{emit_operator, name_element, name_with};
use toast::render::render_usings;
use toast::sizes::StructDefinition;
use toast::state::{FunctionState, GlobalState};
use toast::statement::emit_statement;
use toast::table::{NameSet, NameTable};
use toast::type_check::{
    check_and_apply_multiple_stack_transitions, check_and_apply_stack_transition, render_stack,
};
use toast::type_parse::found_text;
use toast::types::{FunctionType, Type};

fn origin() -> Span {
    Span::new(0, 0)
}

fn place(start: usize, end: usize) -> Span {
    Span::new(start, end)
}

fn name(text: &str) -> Identifier {
    Identifier { span: origin(), name: text.to_string() }
}

fn named(text: &str) -> LexType {
    LexType::Base(name(text))
}

fn literal(val: isize) -> Statement {
    Statement::IntLiteral(IntLiteral { span: origin(), val })
}

fn body(statements: Vec<Statement>) -> Block {
    Block { span: origin(), body: statements }
}

fn function(text: &str, i: Vec<LexType>, o: Vec<LexType>, statements: Vec<Statement>) -> Function {
    Function { span: place(1, 2), name: name(text), type_def: FuncType { i, o }, body: body(statements) }
}

fn program(functions: Vec<Function>) -> Module {
    Module {
        span: origin(),
        globals: vec![],
        inlines: vec![],
        functions,
        struct_defs: vec![],
        modules: vec![],
        usings: vec![],
    }
}

fn pointer(t: Type) -> Type {
    Type::Pointer(1, Box::new(t))
}

fn state_of(out: Vec<Type>) -> FunctionState {
    FunctionState {
        current_bindings: vec![],
        function_out_stack: out,
        function_out_label: "fn_f_exit".to_string(),
        function_let_bindings: 0,
        function_name: "f".to_string(),
    }
}

fn outermost() -> Stack<String> {
    Stack::from(&vec!["".to_string()])
}

fn member(text: &str, t: LexType) -> StructMember {
    StructMember { span: origin(), name: name(text), var_type: t, size: 1 }
}

fn failure_of(m: &Module) -> CompileError {
    emit_root_module(m).unwrap_err()
}

#[test]
fn a_body_that_leaves_the_wrong_stack_names_both_stacks() {
    let m = program(vec![function("main", vec![], vec![named("u16")], vec![])]);
    let e = failure_of(&m);
    assert_eq!(e.kind, ErrorKind::SignatureMismatch);
    assert_eq!(e.span, place(1, 2));
    assert_eq!(
        e.message(),
        "The signature of the function expects a return of [u16], but the body leaves []"
    );
    let mut global = GlobalState::new();
    global.function_signatures.insert(
        "m::f".to_string(),
        FunctionType { in_t: vec![Type::U16], out_t: vec![Type::Bool, Type::U16] },
    );
    let f = function("f", vec![], vec![], vec![literal(4)]);
    let e = emit_function(&f, "m::", &mut global, &outermost()).unwrap_err();
    assert_eq!(
        e.message(),
        "The signature of the function expects a return of [bool, u16], but the body leaves [u16, u16]"
    );
    let e = emit_function(&f, "n::", &mut global, &outermost()).unwrap_err();
    assert_eq!(e.kind, ErrorKind::UnknownFunction);
    assert_eq!(
        e.message(),
        "Was not able to find function signature of function `n::f`. The prefixes tried are [``]."
    );
}

#[test]
fn a_failed_return_leaves_the_stack_and_names_both_stacks() {
    let mut global = GlobalState::new();
    let function = state_of(vec![Type::U16]);
    let mut stack = Stack::from(&vec![Type::U16, Type::Bool]);
    let e = emit_operator("b", &Operator::Return(place(5, 6)), &mut global, &function, &mut stack, &outermost())
        .unwrap_err();
    assert_eq!(e.kind, ErrorKind::ReturnMismatch);
    assert_eq!(e.span, place(5, 6));
    assert_eq!(e.message(), "Cannot return here. Expecting stack contents of [u16] but found [u16, bool]");
    assert_eq!(stack.to_vec(), vec![Type::U16, Type::Bool]);
    assert_eq!(stack.len, 2);
    assert_eq!(global.label_counter, 0);
}

#[test]
fn a_failed_subtraction_leaves_the_stack_and_lists_its_rules() {
    let mut global = GlobalState::new();
    let function = state_of(vec![]);
    let mut stack = Stack::from(&vec![Type::Bool, Type::U16]);
    let e = emit_operator("b", &Operator::Sub(place(2, 3)), &mut global, &function, &mut stack, &outermost())
        .unwrap_err();
    assert_eq!(e.kind, ErrorKind::NoMatchingRule);
    assert_eq!(e.span, place(2, 3));
    assert_eq!(
        e.message(),
        "Cannot invoke statement `-` as it requires one of [$$a*, u16] -> [$$a*] [$$a*, $$a*] -> [u16] [u16, u16] -> [u16] to match. Current stack is [bool, u16]."
    );
    assert_eq!(stack.to_vec(), vec![Type::Bool, Type::U16]);
    assert_eq!(stack.len, 2);
    let e = emit_operator("b", &Operator::Lt(place(2, 3)), &mut global, &function, &mut stack, &outermost())
        .unwrap_err();
    assert_eq!(
        e.message(),
        "Cannot invoke statement `<` as it requires types [u16, u16] at the top of the stack. Current stack is [bool, u16]."
    );
    assert_eq!(stack.to_vec(), vec![Type::Bool, Type::U16]);
    let mut stack = Stack::from(&vec![pointer(Type::U16)]);
    let e = emit_operator("b", &Operator::Call(place(8, 9)), &mut global, &function, &mut stack, &outermost())
        .unwrap_err();
    assert_eq!(
        e.message(),
        "Using the `()` operator requires function pointer to be on the top of the stack. Top of the stack is u16*."
    );
    assert_eq!(stack.to_vec(), vec![pointer(Type::U16)]);
    assert_eq!(global.label_counter, 0);
}

#[test]
fn a_failed_transition_leaves_the_stack() {
    let mut stack = Stack::from(&vec![Type::Bool]);
    let e = check_and_apply_stack_transition(
        "swap",
        &place(3, 9),
        &mut stack,
        &vec![Type::new_generic("a"), Type::new_generic("b")],
        &vec![Type::new_generic("b"), Type::new_generic("a")],
    )
    .unwrap_err();
    assert_eq!(e.kind, ErrorKind::StackMismatch);
    assert_eq!(e.span, place(3, 9));
    assert_eq!(
        e.message(),
        "Cannot invoke statement `swap` as it requires types [$a, $b] at the top of the stack. Current stack is [bool]."
    );
    assert_eq!(stack.to_vec(), vec![Type::Bool]);
    let rules = vec![(vec![Type::U16], vec![]), (vec![pointer(Type::U16)], vec![Type::U16])];
    let e = check_and_apply_multiple_stack_transitions("!", &place(3, 9), &mut stack, &rules).unwrap_err();
    assert_eq!(e.kind, ErrorKind::NoMatchingRule);
    assert_eq!(
        e.message(),
        "Cannot invoke statement `!` as it requires one of [u16] -> [] [u16*] -> [u16] to match. Current stack is [bool]."
    );
    assert_eq!(stack.to_vec(), vec![Type::Bool]);
    assert_eq!(render_stack(&stack), "[bool]");
    let e = check_and_apply_stack_transition(
        "make",
        &place(3, 9),
        &mut stack,
        &vec![Type::Bool],
        &vec![Type::new_generic("b")],
    )
    .unwrap_err();
    assert_eq!(e.kind, ErrorKind::UnboundGeneric);
    assert_eq!(
        e.message(),
        "Cannot invoke statement `make` as a generic type that it produces has no corresponding input type. It requires types [bool] at the top of the stack. Current stack is [bool]."
    );
    assert_eq!(stack.to_vec(), vec![Type::Bool]);
    assert_eq!(stack.len, 1);
}

#[test]
fn a_condition_that_is_missing_or_of_the_wrong_type_is_named() {
    let stmt = Statement::If(If { span: place(4, 5), if_block: body(vec![]), else_block: None });
    let mut global = GlobalState::new();
    let mut function = state_of(vec![]);
    let mut stack: Stack<Type> = Stack::empty();
    let e = emit_statement("b", &stmt, &mut global, &mut function, &mut stack, &outermost(), 0).unwrap_err();
    assert_eq!(
        e.message(),
        "The if statement needs an element at the top of the stack to serve as a conditional. Current stack is empty."
    );
    let mut stack = Stack::from(&vec![Type::U16, Type::Bool]);
    let e = emit_statement("b", &stmt, &mut global, &mut function, &mut stack, &outermost(), 0).unwrap_err();
    assert_eq!(
        e.message(),
        "Element `bool` at the top of the stack cannot be used as the conditional for the if statement."
    );
}

#[test]
fn a_binding_without_a_value_is_named() {
    let stmt = Statement::Let(Let { span: place(6, 7), bindings: vec![name("x"), name("y")], body: body(vec![]) });
    let mut global = GlobalState::new();
    let mut function = state_of(vec![]);
    let mut stack = Stack::from(&vec![Type::U16]);
    let e = emit_statement("b", &stmt, &mut global, &mut function, &mut stack, &outermost(), 0).unwrap_err();
    assert_eq!(e.kind, ErrorKind::BindingMissing);
    assert_eq!(e.span, place(6, 7));
    assert_eq!(e.message(), "Cannot bind `x` since the stack is empty at this point.");
}

#[test]
fn a_name_that_is_not_found_comes_with_the_prefixes_tried() {
    let m = program(vec![function("main", vec![], vec![], vec![Statement::Identifier(name("nothing"))])]);
    let e = failure_of(&m);
    assert_eq!(e.kind, ErrorKind::UnknownFunction);
    assert_eq!(
        e.message(),
        "Was not able to find function signature of function `nothing`. The prefixes tried are [``]."
    );
    let mut global = GlobalState::new();
    let function = state_of(vec![]);
    let mut stack: Stack<Type> = Stack::empty();
    let scope = Stack::from(&vec!["".to_string(), "lib::".to_string()]);
    assert_eq!(render_usings(&scope), "[``, `lib::`]");
    let e = emit_operator("b", &Operator::Ptr(place(1, 1), name("far")), &mut global, &function, &mut stack, &scope)
        .unwrap_err();
    assert_eq!(e.kind, ErrorKind::UnknownFunction);
    assert_eq!(
        e.message(),
        "Was not able to find function signature of function `far`. The prefixes tried are [``, `lib::`]."
    );
    let e = emit_operator("b", &Operator::As(place(1, 1), named("Nope")), &mut global, &function, &mut stack, &scope)
        .unwrap_err();
    assert_eq!(e.kind, ErrorKind::UnknownType);
    assert_eq!(
        e.message(),
        "Type `Nope` named in `as` is not in scope. The prefixes tried are [``, `lib::`]."
    );
    assert_eq!(stack.len, 0);
}

#[test]
fn a_definition_that_cannot_be_gathered_is_named() {
    let m = program(vec![function("f", vec![], vec![], vec![]), function("f", vec![], vec![], vec![])]);
    let e = failure_of(&m);
    assert_eq!(e.kind, ErrorKind::DuplicateFunction);
    assert_eq!(e.span, origin());
    assert_eq!(e.message(), "Function `f` is already defined.");
    let mut outer = program(vec![]);
    outer.modules = vec![NamedModule {
        name: name("inner"),
        module: program(vec![function("g", vec![], vec![], vec![]), function("g", vec![], vec![], vec![])]),
    }];
    assert_eq!(failure_of(&outer).message(), "Function `inner::g` is already defined.");
    let mut global = GlobalState::new();
    let inner = program(vec![function("h", vec![named("Nothing")], vec![], vec![])]);
    let scope = Stack::from(&vec!["".to_string(), "deep::".to_string()]);
    let e = gather_definitions(&inner, "deep::", &mut global, &scope).unwrap_err();
    assert_eq!(e.kind, ErrorKind::BadSignature);
    assert_eq!(
        e.message(),
        "Could not parse some types in function `deep::h`: type `Nothing` is not in scope. The prefixes tried are [``, `deep::`]."
    );
    let mut m = program(vec![]);
    m.globals = vec![Global {
        span: origin(),
        name: name("g"),
        size: 1,
        var_type: named("Nothing"),
        val: IntLiteral { span: origin(), val: 0 },
    }];
    let e = failure_of(&m);
    assert_eq!(e.kind, ErrorKind::UnknownType);
    assert_eq!(e.message(), "Type `Nothing` named in `g` is not in scope. The prefixes tried are [``].");
}

#[test]
fn a_struct_that_is_declared_twice_is_named() {
    let mut inner = program(vec![]);
    inner.struct_defs = vec![
        StructDef { span: origin(), name: name("A"), members: vec![] },
        StructDef { span: origin(), name: name("A"), members: vec![] },
    ];
    let mut structs: NameTable<(Stack<String>, &StructDef)> = NameTable::new();
    let e = gather_struct_declarations(&inner, "m::", &outermost(), &mut structs).unwrap_err();
    assert_eq!(e.kind, ErrorKind::DuplicateStruct);
    assert_eq!(e.message(), "Struct `m::A` is already defined.");
    assert!(structs.contains_key(&"m::A".to_string()));
    assert_eq!(structs.len(), 1);
}

#[test]
fn a_resolution_that_fails_keeps_what_it_found() {
    let a = StructDef { span: origin(), name: name("A"), members: vec![member("x", named("u16"))] };
    let c = StructDef {
        span: origin(),
        name: name("C"),
        members: vec![member("a", named("A")), member("m", named("Missing"))],
    };
    let mut structs: NameTable<(Stack<String>, &StructDef)> = NameTable::new();
    structs.insert("A".to_string(), (outermost(), &a));
    structs.insert("C".to_string(), (outermost(), &c));
    let mut defs: NameTable<StructDefinition> = NameTable::new();
    let mut seen = NameSet::new();
    let e = Type::resolve_struct_size("C", &mut defs, &structs, &mut seen, 2).unwrap_err();
    assert_eq!(e.kind, ErrorKind::UnknownMemberType);
    assert_eq!(e.span, origin());
    assert_eq!(
        e.message(),
        "Error looking up member type `Missing` for struct `C`, that type is not in scope here. The prefixes tried are [``]."
    );
    assert_eq!(defs.len(), 1);
    assert_eq!(defs.get(&"A".to_string()).unwrap().size, 1);
    assert!(!defs.contains_key(&"C".to_string()));
    assert_eq!(seen.len(), 2);
    assert!(seen.contains(&"C".to_string()));
    assert!(seen.contains(&"A".to_string()));
}

#[test]
fn a_struct_inside_itself_is_named() {
    let a = StructDef { span: origin(), name: name("A"), members: vec![member("b", named("B"))] };
    let b = StructDef { span: origin(), name: name("B"), members: vec![member("a", named("A"))] };
    let mut structs: NameTable<(Stack<String>, &StructDef)> = NameTable::new();
    structs.insert("A".to_string(), (outermost(), &a));
    structs.insert("B".to_string(), (outermost(), &b));
    let mut defs: NameTable<StructDefinition> = NameTable::new();
    let mut seen = NameSet::new();
    let e = Type::resolve_struct_size("A", &mut defs, &structs, &mut seen, 2).unwrap_err();
    assert_eq!(e.kind, ErrorKind::RecursiveStruct);
    assert_eq!(e.message(), "Struct `A` contains a recursive definition without indirection.");
    assert_eq!(defs.len(), 0);
    assert_eq!(seen.len(), 2);
    let mut seen = NameSet::new();
    let e = Type::resolve_struct_size("Z", &mut defs, &structs, &mut seen, 2).unwrap_err();
    assert_eq!(e.kind, ErrorKind::UnknownStruct);
    assert_eq!(e.message(), "Error looking up struct `Z`, that type is not in scope here.");
    assert_eq!(seen.len(), 1);
    assert!(seen.contains(&"Z".to_string()));
    assert_eq!(defs.len(), 0);
    let e = Type::resolve_struct_size("Z", &mut defs, &structs, &mut seen, 2).unwrap_err();
    assert_eq!(e.kind, ErrorKind::RecursiveStruct);
    assert_eq!(seen.len(), 1);
}

#[test]
fn a_struct_that_holds_itself_gets_no_layout() {
    let a = StructDef { span: origin(), name: name("A"), members: vec![member("a", named("A"))] };
    let mut structs: NameTable<(Stack<String>, &StructDef)> = NameTable::new();
    structs.insert("A".to_string(), (outermost(), &a));
    let mut defs: NameTable<StructDefinition> = NameTable::new();
    let mut seen = NameSet::new();
    let e = Type::resolve_struct_size("A", &mut defs, &structs, &mut seen, 1).unwrap_err();
    assert_eq!(e.kind, ErrorKind::RecursiveStruct);
    assert!(!defs.contains_key(&"A".to_string()));
    assert!(seen.contains(&"A".to_string()));
    let linked = StructDef {
        span: origin(),
        name: name("A"),
        members: vec![member("a", LexType::Ptr(Box::new(named("A"))))],
    };
    let mut structs: NameTable<(Stack<String>, &StructDef)> = NameTable::new();
    structs.insert("A".to_string(), (outermost(), &linked));
    let mut seen = NameSet::new();
    assert_eq!(Type::resolve_struct_size("A", &mut defs, &structs, &mut seen, 1).unwrap(), 1);
    let layout = defs.get(&"A".to_string()).unwrap();
    assert_eq!(layout.size, 1);
    assert_eq!(
        layout.members.get(&"a".to_string()).unwrap(),
        &(0, Type::Pointer(1, Box::new(Type::Struct("A".to_string()))))
    );
}

#[test]
fn a_binding_of_a_struct_without_a_layout_is_named() {
    let mut global = GlobalState::new();
    let mut function = FunctionState {
        current_bindings: vec![
            ("y".to_string(), Type::U16),
            ("x".to_string(), Type::Struct("Q".to_string())),
        ],
        function_out_stack: vec![],
        function_out_label: "fn_f_exit".to_string(),
        function_let_bindings: 2,
        function_name: "f".to_string(),
    };
    let mut stack: Stack<Type> = Stack::empty();
    let stmt = Statement::Identifier(Identifier { span: place(3, 4), name: "y".to_string() });
    let e = emit_statement("b", &stmt, &mut global, &mut function, &mut stack, &outermost(), 0).unwrap_err();
    assert_eq!(e.kind, ErrorKind::UnknownStruct);
    assert_eq!(e.span, place(3, 4));
    assert_eq!(e.message(), "Error looking up struct `Q`, that type is not in scope here.");
    assert_eq!(Type::Struct("Q".to_string()).struct_name(), "Q");
    assert_eq!(Type::U16.struct_name(), "");
}

#[test]
fn a_pattern_exists_only_where_it_compiles() {
    assert!(Pattern::new("(").is_none());
    let pattern = Pattern::new("a+").unwrap();
    assert_eq!(pattern.replace_all("caaab a", "x"), "cxb x");
    assert_eq!(collapse_with(None, "a\n\n\nb".to_string()), "a\n\n\nb");
    assert_eq!(collapse_with(Pattern::new("\n+"), "a\n\n\nb".to_string()), "a\nb");
    assert_eq!(collapse_with(Pattern::new("b"), "abc".to_string()), "a\nc");
}

#[test]
fn an_error_is_its_place_its_kind_and_its_sentence() {
    let e = CompileError::new(place(2, 4), ErrorKind::UnknownMember, "z", "Point", "");
    assert_eq!(e.span, place(2, 4));
    assert_eq!(e.kind, ErrorKind::UnknownMember);
    assert_eq!(e.message(), "Struct `Point` does not have a member `z`.");
    let r: Result<usize, CompileError> = fail(&place(1, 1), ErrorKind::NotAStructPointer, "x", "", "[u16]");
    assert_eq!(
        r.unwrap_err().message(),
        "Struct access .x requires one struct pointer at the top of the stack. Current stack is [u16]."
    );
    let r: Result<usize, CompileError> = fail_plain(&place(1, 1), ErrorKind::InlineDepth, "twice");
    assert_eq!(r.unwrap_err().message(), "Inline definition `twice` expands into itself without end.");
    assert_eq!(
        render_message(ErrorKind::IsrStack, "", "", "[u16]"),
        "Interrupt service routine (isr) has to handle all stack items, but [u16] remains on the stack."
    );
    assert_eq!(
        render_message(ErrorKind::LabelsExhausted, "a", "b", "c"),
        "No number is left for another label or constant."
    );
    assert_eq!(
        render_message(ErrorKind::NotAPointer, "load", "", "[bool]"),
        "`load` requires a pointer at the top of the stack. Current stack is [bool]."
    );
    assert_eq!(
        render_message(ErrorKind::StackTooDeep, "dup", "[$a]", "[u16]"),
        "Cannot invoke statement `dup` as it leaves more items on the stack than can be counted. It requires types [$a] at the top of the stack. Current stack is [u16]."
    );
    assert_eq!(
        render_message(ErrorKind::ScopeTooDeep, "m::", "", ""),
        "Module `m::` has more prefixes in scope than can be counted."
    );
}

#[test]
fn an_operation_with_an_argument_is_named_with_it() {
    let mut global = GlobalState::new();
    let function = state_of(vec![]);
    let mut stack: Stack<Type> = Stack::empty();
    let target = LexType::Ptr(Box::new(named("bool")));
    let e = emit_operator("b", &Operator::As(place(1, 2), target), &mut global, &function, &mut stack, &outermost())
        .unwrap_err();
    assert_eq!(e.kind, ErrorKind::StackMismatch);
    assert_eq!(
        e.message(),
        "Cannot invoke statement `as(bool*)` as it requires types [$$a] at the top of the stack. Current stack is []."
    );
    let mut stack = Stack::from(&vec![Type::U16]);
    let index = IntLiteral { span: origin(), val: 3 };
    let e = emit_operator("b", &Operator::ConstArrayAccess(place(1, 2), index), &mut global, &function, &mut stack, &outermost())
        .unwrap_err();
    assert_eq!(e.kind, ErrorKind::StackMismatch);
    assert_eq!(
        e.message(),
        "Cannot invoke statement `[3]` as it requires types [$$a*] at the top of the stack. Current stack is [u16]."
    );
    assert_eq!(stack.to_vec(), vec![Type::U16]);
    let mut stack = Stack::from(&vec![pointer(Type::U16)]);
    let index = IntLiteral { span: origin(), val: -2 };
    let e = emit_operator("b", &Operator::ConstArrayAccess(place(1, 2), index), &mut global, &function, &mut stack, &outermost())
        .unwrap_err();
    assert_eq!(e.kind, ErrorKind::InvalidSize);
    assert_eq!(e.message(), "A count in `[-2]` is negative.");
    assert_eq!(stack.to_vec(), vec![pointer(Type::U16)]);
    assert_eq!(name_with("ptr", "lib::f"), "ptr(lib::f)");
    assert_eq!(name_element(12), "[12]");
}

#[test]
fn the_first_name_without_a_type_is_found() {
    let mut structs: NameTable<StructDefinition> = NameTable::new();
    structs.insert("lib::Known".to_string(), StructDefinition { members: NameTable::new(), size: 0 });
    let scope = Stack::from(&vec!["".to_string(), "lib::".to_string()]);
    assert_eq!(Type::unknown_name(&named("u16"), &structs, &scope), None);
    assert_eq!(Type::unknown_name(&named("bool"), &structs, &scope), None);
    assert_eq!(Type::unknown_name(&named("Known"), &structs, &scope), None);
    assert_eq!(Type::unknown_name(&named("Known"), &structs, &outermost()), Some("Known".to_string()));
    assert_eq!(Type::unknown_name(&LexType::Gen(name("a")), &structs, &scope), None);
    let deep = LexType::Ptr(Box::new(LexType::Ptr(Box::new(named("Q")))));
    assert_eq!(Type::unknown_name(&deep, &structs, &scope), Some("Q".to_string()));
    let effect = FuncType {
        i: vec![named("u16"), named("Known")],
        o: vec![LexType::Ptr(Box::new(named("Late"))), named("Later")],
    };
    assert_eq!(Type::unknown_in_func_def(&effect, &structs, &scope), Some("Late".to_string()));
    let effect = FuncType { i: vec![named("u16"), named("First")], o: vec![named("Second")] };
    assert_eq!(
        Type::unknown_name(&LexType::Func(effect), &structs, &scope),
        Some("First".to_string())
    );
    let effect = FuncType { i: vec![named("u16")], o: vec![named("Known")] };
    assert_eq!(Type::unknown_in_func_def(&effect, &structs, &scope), None);
    assert_eq!(found_text(Some("Q".to_string())), "Q");
    assert_eq!(found_text(None), "");
}

#[test]
fn a_member_of_an_unknown_type_names_the_type() {
    let a = StructDef {
        span: origin(),
        name: name("A"),
        members: vec![member("next", LexType::Ptr(Box::new(named("Gone"))))],
    };
    let mut structs: NameTable<(Stack<String>, &StructDef)> = NameTable::new();
    structs.insert("A".to_string(), (outermost(), &a));
    let mut defs: NameTable<StructDefinition> = NameTable::new();
    let mut seen = NameSet::new();
    let e = Type::resolve_struct_size("A", &mut defs, &structs, &mut seen, 1).unwrap_err();
    assert_eq!(e.kind, ErrorKind::UnknownType);
    assert_eq!(
        e.message(),
        "Type `Gone` named in `next` is not in scope. The prefixes tried are [``]."
    );
    assert_eq!(defs.len(), 0);
    assert!(seen.contains(&"A".to_string()));
}
