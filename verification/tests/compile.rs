use std::rc::Rc;
use toast::ast::{
    Block, FuncType, Function, Global, Identifier, If, Inline, IntArray, IntLiteral, Let, LexType,
    Module, NamedModule, Operator, Span, Statement, StructDef, StructMember, Unroll, Using, While,
};
use toast::compile::{collapse_blank_lines, compile};
use toast::error::ErrorKind;
use toast::gss::Stack;
use toast::module::emit_root_module;
use toast::operator::emit_operator;
use toast::sizes::{StructDefinition, TypeSize};
use toast::state::{FunctionState, GlobalState};
use toast::statement::{emit_statement, find_function, find_global};
use toast::table::NameTable;
use toast::types::{FunctionType, Type};

fn sp() -> Span {
    Span::new(0, 0)
}

fn at(start: usize, end: usize) -> Span {
    Span::new(start, end)
}

fn ident(name: &str) -> Identifier {
    Identifier { span: sp(), name: name.to_string() }
}

fn word(name: &str) -> Statement {
    Statement::Identifier(ident(name))
}

fn num(val: isize) -> Statement {
    Statement::IntLiteral(IntLiteral { span: sp(), val })
}

fn op(o: Operator) -> Statement {
    Statement::Operator(o)
}

fn block(body: Vec<Statement>) -> Block {
    Block { span: sp(), body }
}

fn base(name: &str) -> LexType {
    LexType::Base(ident(name))
}

fn func(name: &str, i: Vec<LexType>, o: Vec<LexType>, body: Vec<Statement>) -> Function {
    Function { span: at(1, 2), name: ident(name), type_def: FuncType { i, o }, body: block(body) }
}

fn module(functions: Vec<Function>) -> Module {
    Module {
        span: sp(),
        globals: vec![],
        inlines: vec![],
        functions,
        struct_defs: vec![],
        modules: vec![],
        usings: vec![],
    }
}

fn ptr(t: Type) -> Type {
    Type::Pointer(1, Box::new(t))
}

fn function_state(out: Vec<Type>) -> FunctionState {
    FunctionState {
        current_bindings: vec![],
        function_out_stack: out,
        function_out_label: "fn_f_exit".to_string(),
        function_let_bindings: 0,
        function_name: "f".to_string(),
    }
}

fn root_scope() -> Stack<String> {
    Stack::from(&vec!["".to_string()])
}

fn kind_of(m: &Module) -> ErrorKind {
    emit_root_module(m).unwrap_err().kind
}

#[test]
fn a_minimal_program() {
    let m = module(vec![func("main", vec![], vec![], vec![num(5), word("drop")])]);
    let text = emit_root_module(&m).unwrap();
    let want = "\n# allocate 1024 words on the heap\n.ret_stack [0x0400]\n\nfn .reset\n    # setup isr and jump to main\n    imov! isr .fn_isr\n    # initialize ret stack ptrs\n    imov! t5 .ret_stack\n    imov! t0 0x03FF\n    add   t5 t0\n    imov! t1 .reset_ret\n    push  t5 t1\n    # initialize our global variables\n    call! .init_globals\n    jmp!  .fn_main\n.reset_ret\n    halt\n#end .reset\n\nfn .init_globals\n    push! t0\n    pop!  t0\n    jmpr\n#end .init_globals\n\n\n\nfn .fn_isr\n    isr!\n    rti!\n#end .fn_isr\n\nfn .fn_main\n    imov! t0 5\n    push  t0\n    pop!  t0\n.fn_main_exit\n    pop   t0 t5\n    jmp   t0\n#end .main\n";
    assert_eq!(text, want);
    let collapsed = compile(&m).unwrap();
    assert!(!collapsed.contains("\n\n"));
    assert!(collapsed.contains("fn .fn_main\n    imov! t0 5\n"));
}

#[test]
fn blank_lines_are_collapsed() {
    assert_eq!(collapse_blank_lines("a\n\n\nb\n  \n\tc\r\n\r\nd".to_string()), "a\nb\n\tc\nd");
    assert_eq!(collapse_blank_lines("a\nb".to_string()), "a\nb");
}

#[test]
fn both_arms_of_an_if_must_agree() {
    let uneven = Statement::If(If {
        span: at(10, 20),
        if_block: block(vec![num(1)]),
        else_block: Some(block(vec![])),
    });
    let m = module(vec![func("main", vec![], vec![], vec![num(1), uneven])]);
    let e = emit_root_module(&m).unwrap_err();
    assert_eq!(e.kind, ErrorKind::BranchMismatch);
    assert_eq!(e.span, at(10, 20));
    assert_eq!(
        e.message(),
        "If and else blocks do not have the same elements on the stack after execution. If has [u16] and else has []"
    );
    let no_else = Statement::If(If { span: at(10, 20), if_block: block(vec![num(1)]), else_block: None });
    let m = module(vec![func("main", vec![], vec![], vec![num(1), no_else])]);
    assert_eq!(kind_of(&m), ErrorKind::BranchMismatch);
    let even = Statement::If(If {
        span: sp(),
        if_block: block(vec![num(1)]),
        else_block: Some(block(vec![num(2)])),
    });
    let m = module(vec![func("main", vec![], vec![base("u16")], vec![num(1), even])]);
    let text = emit_root_module(&m).unwrap();
    assert!(text.contains(
        "    pop!  t0\n    tst   t0\n    jz!   .fn_main_body_else_2\n.fn_main_body_if_1\n    imov! t0 1\n    push  t0\n    jmp!  .fn_main_body_if_exit_3\n.fn_main_body_else_2\n    imov! t0 2\n    push  t0\n.fn_main_body_if_exit_3\n"
    ));
}

#[test]
fn a_condition_is_a_number_or_a_pointer() {
    let stmt = Statement::If(If { span: at(4, 5), if_block: block(vec![]), else_block: None });
    let mut global = GlobalState::new();
    let mut function = function_state(vec![]);
    let mut stack: Stack<Type> = Stack::empty();
    let e = emit_statement("b", &stmt, &mut global, &mut function, &mut stack, &root_scope(), 0)
        .unwrap_err();
    assert_eq!(e.kind, ErrorKind::ConditionMissing);
    assert_eq!(e.span, at(4, 5));
    let mut stack = Stack::from(&vec![Type::Bool]);
    let e = emit_statement("b", &stmt, &mut global, &mut function, &mut stack, &root_scope(), 0)
        .unwrap_err();
    assert_eq!(e.kind, ErrorKind::ConditionType);
    let mut stack = Stack::from(&vec![Type::U16, ptr(Type::Bool)]);
    emit_statement("b", &stmt, &mut global, &mut function, &mut stack, &root_scope(), 0).unwrap();
    assert_eq!(stack.to_vec(), vec![Type::U16]);
}

#[test]
fn a_loop_body_must_restore_the_stack() {
    let growing = Statement::While(While {
        span: at(7, 8),
        eval: block(vec![num(1)]),
        body: block(vec![num(2)]),
    });
    let m = module(vec![func("main", vec![], vec![], vec![growing])]);
    let e = emit_root_module(&m).unwrap_err();
    assert_eq!(e.kind, ErrorKind::LoopMismatch);
    assert_eq!(e.span, at(7, 8));
    assert_eq!(
        e.message(),
        "The stack after the body of the loop and before its condition need to be identical. Before the condition [], after the body [u16]"
    );
    let balanced = Statement::While(While {
        span: sp(),
        eval: block(vec![word("dup")]),
        body: block(vec![num(1), op(Operator::Sub(sp()))]),
    });
    let m = module(vec![func("main", vec![], vec![], vec![num(9), balanced, word("drop")])]);
    let text = emit_root_module(&m).unwrap();
    assert!(text.contains(
        ".fn_main_body_while_eval_1\n    pop!  t0\n    push! t0 t0\n    pop!  t0\n    tst   t0\n    jz!   .fn_main_body_while_exit_3\n.fn_main_body_while_body_2\n    imov! t0 1\n    push  t0\n    pop!  t1 t0\n    sub   t0 t1\n    push! t0\n    jmp!  .fn_main_body_while_eval_1\n.fn_main_body_while_exit_3\n"
    ));
}

#[test]
fn a_function_must_leave_its_declared_output() {
    let m = module(vec![func("main", vec![], vec![base("u16")], vec![])]);
    let e = emit_root_module(&m).unwrap_err();
    assert_eq!(e.kind, ErrorKind::SignatureMismatch);
    assert_eq!(e.span, at(1, 2));
    let m = module(vec![
        func("main", vec![], vec![], vec![num(1), word("twice"), word("drop")]),
        func("twice", vec![base("u16")], vec![base("u16")], vec![word("dup"), op(Operator::Add(sp()))]),
    ]);
    assert!(emit_root_module(&m).is_ok());
    let m = module(vec![func("main", vec![], vec![], vec![num(1), op(Operator::Return(at(5, 6)))])]);
    let e = emit_root_module(&m).unwrap_err();
    assert_eq!(e.kind, ErrorKind::ReturnMismatch);
    assert_eq!(e.span, at(5, 6));
    let m = module(vec![func(
        "main",
        vec![],
        vec![base("u16")],
        vec![num(1), op(Operator::Return(sp())), word("drop"), num(2)],
    )]);
    let text = emit_root_module(&m).unwrap();
    assert!(text.contains("    imov! t0 0\n    add   t5 t0\n    jmp!  .fn_main_exit\n"));
}

#[test]
fn functions_that_are_not_reached_are_left_out() {
    let m = module(vec![
        func("main", vec![], vec![], vec![word("used")]),
        func("used", vec![], vec![], vec![word("deeper")]),
        func("deeper", vec![], vec![], vec![]),
        func("unused", vec![], vec![], vec![word("also_unused")]),
        func("also_unused", vec![], vec![], vec![]),
        func("taken", vec![], vec![], vec![]),
        func("isr", vec![], vec![], vec![op(Operator::Ptr(sp(), ident("taken"))), word("drop")]),
    ]);
    let text = emit_root_module(&m).unwrap();
    assert!(text.contains("fn .fn_main\n"));
    assert!(text.contains("fn .fn_used\n"));
    assert!(text.contains("fn .fn_deeper\n"));
    assert!(text.contains("fn .fn_taken\n"));
    assert!(!text.contains("fn .fn_unused"));
    assert!(!text.contains("fn .fn_also_unused"));
    assert!(text.contains("fn .fn_isr\n    isr!\n    push! p0 p1 p2 p3 v0 t0 t1 t2 t3 t4\n"));
    assert_eq!(text.matches("fn .fn_isr").count(), 1);
    assert!(text.contains(
        "    imov! t0 .fn_main_body_retaddr_1\n    push  t5 t0\n    jmp!  .fn_used\n.fn_main_body_retaddr_1\n"
    ));
}

#[test]
fn the_isr_takes_and_leaves_nothing() {
    let m = module(vec![func("isr", vec![base("u16")], vec![], vec![word("drop")])]);
    assert_eq!(kind_of(&m), ErrorKind::IsrSignature);
    let m = module(vec![func("isr", vec![], vec![], vec![num(1)])]);
    assert_eq!(kind_of(&m), ErrorKind::IsrStack);
}

fn point_module(functions: Vec<Function>) -> Module {
    let member = |name: &str, t: LexType, size: isize| StructMember {
        span: sp(),
        name: ident(name),
        var_type: t,
        size,
    };
    let mut m = module(functions);
    m.struct_defs = vec![
        StructDef {
            span: sp(),
            name: ident("Line"),
            members: vec![
                member("from", base("Point"), 1),
                member("to", base("Point"), 2),
                member("next", LexType::Ptr(Box::new(base("Line"))), 1),
            ],
        },
        StructDef {
            span: sp(),
            name: ident("Point"),
            members: vec![member("x", base("u16"), 1), member("y", base("u16"), 1)],
        },
    ];
    m
}

#[test]
fn struct_sizes_and_member_offsets() {
    let body = vec![
        op(Operator::SizeOf(sp(), base("Point"))),
        word("drop"),
        op(Operator::SizeOf(sp(), base("Line"))),
        word("drop"),
        word("origin"),
        op(Operator::StructAccess(sp(), "y".to_string())),
        word("load"),
        word("drop"),
        word("origin"),
        op(Operator::StructAccess(sp(), "x".to_string())),
        word("drop"),
        word("lines"),
        op(Operator::ConstArrayAccess(sp(), IntLiteral { span: sp(), val: 3 })),
        op(Operator::StructAccess(sp(), "next".to_string())),
        word("load"),
        op(Operator::StructAccess(sp(), "to".to_string())),
        op(Operator::StructAccess(sp(), "y".to_string())),
        word("drop"),
    ];
    let mut m = point_module(vec![func("main", vec![], vec![], body)]);
    m.globals = vec![
        Global {
            span: sp(),
            name: ident("origin"),
            size: 1,
            var_type: base("Point"),
            val: IntLiteral { span: sp(), val: 0 },
        },
        Global {
            span: sp(),
            name: ident("lines"),
            size: 4,
            var_type: base("Line"),
            val: IntLiteral { span: sp(), val: -1 },
        },
    ];
    let text = emit_root_module(&m).unwrap();
    assert!(text.contains("    imov! t0 2\n    push! t0\n"));
    assert!(text.contains("    imov! t0 7\n    push! t0\n"));
    assert!(text.contains(
        "    imov! t0 .variable_alloc_origin\n    push! t0\n    pop!  t0\n    imov! t1 1\n    add   t0 t1\n    push! t0\n"
    ));
    assert!(text.contains(
        "    imov! t0 .variable_alloc_origin\n    push! t0\n    pop!  t0\n    imov! t1 0\n    add   t0 t1\n    push! t0\n"
    ));
    assert!(text.contains("    pop!  t0\n    imov! t1 21\n    add   t0 t1\n    push! t0\n"));
    assert!(text.contains("    pop!  t0\n    imov! t1 6\n    add   t0 t1\n    push! t0\n"));
    assert!(text.contains(".variable_alloc_origin [2]\n.variable_alloc_lines [28]\n"));
    assert!(text.contains("    imov! t0 -1\n    str!  .variable_alloc_lines t0\n"));
}

#[test]
fn member_access_needs_a_struct_pointer_and_a_member() {
    let access = |name: &str| op(Operator::StructAccess(at(2, 3), name.to_string()));
    let m = point_module(vec![func("main", vec![], vec![], vec![access("x")])]);
    assert_eq!(kind_of(&m), ErrorKind::NotAStructPointer);
    let m = point_module(vec![func("main", vec![], vec![], vec![num(1), access("x")])]);
    assert_eq!(kind_of(&m), ErrorKind::NotAStructPointer);
    let m = point_module(vec![func(
        "main",
        vec![LexType::Ptr(Box::new(base("Point")))],
        vec![],
        vec![access("z")],
    )]);
    let e = emit_root_module(&m).unwrap_err();
    assert_eq!(e.kind, ErrorKind::UnknownMember);
    assert_eq!(e.span, at(2, 3));
}

#[test]
fn a_struct_cannot_hold_itself() {
    let member = |name: &str, t: LexType| StructMember { span: sp(), name: ident(name), var_type: t, size: 1 };
    let mut m = module(vec![]);
    m.struct_defs = vec![
        StructDef { span: sp(), name: ident("A"), members: vec![member("b", base("B"))] },
        StructDef { span: sp(), name: ident("B"), members: vec![member("a", base("A"))] },
    ];
    assert_eq!(kind_of(&m), ErrorKind::RecursiveStruct);
    m.struct_defs[1].members = vec![member("a", LexType::Ptr(Box::new(base("A"))))];
    assert!(emit_root_module(&m).is_ok());
    m.struct_defs[1].members = vec![member("a", base("Missing"))];
    assert_eq!(kind_of(&m), ErrorKind::UnknownMemberType);
    m.struct_defs[1].members = vec![member("a", LexType::Gen(ident("a")))];
    assert_eq!(kind_of(&m), ErrorKind::GenericMember);
    m.struct_defs[1].members =
        vec![member("a", LexType::Func(FuncType { i: vec![], o: vec![] }))];
    assert_eq!(kind_of(&m), ErrorKind::FunctionMember);
    m.struct_defs[1] = StructDef { span: sp(), name: ident("A"), members: vec![] };
    assert_eq!(kind_of(&m), ErrorKind::DuplicateStruct);
}

#[test]
fn definitions_are_checked_when_they_are_gathered() {
    let m = module(vec![func("f", vec![], vec![], vec![]), func("f", vec![], vec![], vec![])]);
    assert_eq!(kind_of(&m), ErrorKind::DuplicateFunction);
    let m = module(vec![func("f", vec![base("Nothing")], vec![], vec![])]);
    assert_eq!(kind_of(&m), ErrorKind::BadSignature);
    let mut m = module(vec![]);
    m.globals = vec![Global {
        span: sp(),
        name: ident("g"),
        size: 1,
        var_type: base("Nothing"),
        val: IntLiteral { span: sp(), val: 0 },
    }];
    assert_eq!(kind_of(&m), ErrorKind::UnknownType);
    let m = module(vec![func("main", vec![], vec![], vec![word("nothing")])]);
    assert_eq!(kind_of(&m), ErrorKind::UnknownFunction);
}

#[test]
fn let_bindings_live_on_the_return_stack() {
    let inner = Statement::Let(Let {
        span: sp(),
        bindings: vec![ident("c")],
        body: block(vec![word("a"), word("load"), word("c"), word("load"), word("store")]),
    });
    let outer = Statement::Let(Let {
        span: at(3, 4),
        bindings: vec![ident("a"), ident("b")],
        body: block(vec![word("b"), inner, op(Operator::Return(sp()))]),
    });
    let m = module(vec![func("main", vec![], vec![], vec![num(1), num(2), outer])]);
    let text = emit_root_module(&m).unwrap();
    assert!(text.contains(
        "    pop!  t1\n    push  t5 t1\n    pop!  t1\n    push  t5 t1\n    mov   t0 t5\n    imov! t1 1\n    add   t0 t1\n    push  t0\n    pop!  t1\n    push  t5 t1\n    mov   t0 t5\n    imov! t1 1\n    add   t0 t1\n    push  t0\n    pop!  t0\n    load  t0 t0\n    push! t0\n    mov   t0 t5\n    imov! t1 0\n    add   t0 t1\n    push  t0\n    pop!  t0\n    load  t0 t0\n    push! t0\n    pop!  t1 t0\n    str   t1 t0\n    imov! t0 1\n    add   t5 t0\n    imov! t0 2\n    add   t5 t0\n    jmp!  .fn_main_exit\n    imov! t0 2\n    add   t5 t0\n"
    ));
    let m = module(vec![func(
        "main",
        vec![],
        vec![],
        vec![
            num(1),
            Statement::Let(Let { span: at(3, 4), bindings: vec![ident("a"), ident("b")], body: block(vec![]) }),
        ],
    )]);
    let e = emit_root_module(&m).unwrap_err();
    assert_eq!(e.kind, ErrorKind::BindingMissing);
    assert_eq!(e.span, at(3, 4));
}

#[test]
fn a_binding_shadows_a_global_and_a_global_a_function() {
    let mut m = module(vec![
        func(
            "main",
            vec![],
            vec![],
            vec![
                word("x"),
                word("drop"),
                num(1),
                Statement::Let(Let {
                    span: sp(),
                    bindings: vec![ident("x")],
                    body: block(vec![word("x"), word("drop")]),
                }),
            ],
        ),
        func("x", vec![], vec![], vec![]),
    ]);
    m.globals = vec![Global {
        span: sp(),
        name: ident("x"),
        size: 1,
        var_type: LexType::Ptr(Box::new(base("u16"))),
        val: IntLiteral { span: sp(), val: 0 },
    }];
    let text = emit_root_module(&m).unwrap();
    assert!(text.contains("fn .fn_main\n    imov! t0 .variable_alloc_x\n    push! t0\n    pop!  t0\n"));
    assert!(text.contains("    push  t5 t1\n    mov   t0 t5\n"));
    assert!(!text.contains("jmp!  .fn_x"));
    assert!(!text.contains("fn .fn_x"));
}

#[test]
fn inline_definitions_are_expanded_in_place() {
    let mut m = module(vec![func("main", vec![], vec![], vec![word("two"), word("drop")])]);
    m.inlines = vec![
        Inline { span: sp(), name: ident("one"), statement: Rc::new(num(1)) },
        Inline {
            span: sp(),
            name: ident("two"),
            statement: Rc::new(Statement::Block(block(vec![
                word("one"),
                word("one"),
                op(Operator::Add(sp())),
            ]))),
        },
    ];
    let text = emit_root_module(&m).unwrap();
    assert!(text.contains(
        "fn .fn_main\n    imov! t0 1\n    push  t0\n    imov! t0 1\n    push  t0\n    pop!  t1 t0\n    add   t0 t1\n    push! t0\n    pop!  t0\n"
    ));
    m.inlines = vec![Inline { span: sp(), name: ident("two"), statement: Rc::new(word("two")) }];
    assert_eq!(kind_of(&m), ErrorKind::InlineDepth);
}

#[test]
fn unroll_repeats_the_body() {
    let unroll = |times: isize| {
        Statement::Unroll(Unroll {
            span: sp(),
            times: IntLiteral { span: sp(), val: times },
            body: block(vec![word("dup"), word("drop")]),
        })
    };
    let m = module(vec![func("main", vec![], vec![], vec![num(7), unroll(3), unroll(0), unroll(-2), word("drop")])]);
    let text = emit_root_module(&m).unwrap();
    let once = "    pop!  t0\n    push! t0 t0\n    pop!  t0\n";
    assert!(text.contains(&format!("    push  t0\n{}{}{}    pop!  t0\n.fn_main_exit", once, once, once)));
}

#[test]
fn strings_share_their_words() {
    let lit = |s: &str| Statement::IntArray(IntArray { span: sp(), val: s.bytes().map(u16::from).collect() });
    let m = module(vec![func(
        "main",
        vec![],
        vec![],
        vec![lit("abcd"), word("drop"), lit("bcd"), word("load"), word("drop"), lit("xy\n"), word("drop")],
    )]);
    let text = emit_root_module(&m).unwrap();
    assert!(text.contains("    imov! t0 .const_1\n    push! t0\n"));
    assert!(text.contains("    imov! t0 .const_2\n    push! t0\n"));
    assert!(text.contains(
        ".const_1\n    0x0061 # 'a '\n.const_2\n    0x0062 # 'b '\n    0x0063 # 'c '\n    0x0064 # 'd '\n.const_3\n    0x0078 # 'x '\n    0x0079 # 'y '\n    0x000A # '\\n'\n"
    ));
}

#[test]
fn names_are_resolved_from_the_innermost_using() {
    let inner = Module {
        span: sp(),
        globals: vec![],
        inlines: vec![],
        functions: vec![
            func("helper", vec![], vec![], vec![]),
            func("run", vec![], vec![], vec![word("helper")]),
        ],
        struct_defs: vec![],
        modules: vec![],
        usings: vec![Using { span: sp(), name: ident("lib") }],
    };
    let mut m = module(vec![
        func("helper", vec![], vec![], vec![]),
        func("main", vec![], vec![], vec![word("lib::run"), word("helper")]),
    ]);
    m.modules = vec![NamedModule { name: ident("lib"), module: inner }];
    let text = emit_root_module(&m).unwrap();
    assert!(text.contains("fn .fn_lib::run\n    imov! t0 .fn_lib::run_body_retaddr_1\n    push  t5 t0\n    jmp!  .fn_lib::helper\n"));
    assert!(text.contains("    jmp!  .fn_helper\n"));
    assert!(text.contains("#end .run\n"));
    let mut sigs: NameTable<FunctionType> = NameTable::new();
    sigs.insert("f".to_string(), FunctionType { in_t: vec![], out_t: vec![] });
    sigs.insert("m::f".to_string(), FunctionType { in_t: vec![Type::U16], out_t: vec![] });
    let scope = Stack::from(&vec!["".to_string(), "m::".to_string()]);
    assert_eq!(find_function("f", &sigs, &scope).unwrap().0, "m::f");
    assert_eq!(find_function("f", &sigs, &root_scope()).unwrap().0, "f");
    assert!(find_function("g", &sigs, &scope).is_none());
    let mut globals: NameTable<(Type, isize, isize)> = NameTable::new();
    globals.insert("m::v".to_string(), (Type::Bool, 1, 0));
    assert_eq!(find_global("v", &globals, &scope), Some(("m::v".to_string(), Type::Bool)));
    assert_eq!(find_global("v", &globals, &root_scope()), None);
}

#[test]
fn operators_on_the_stack() {
    let mut global = GlobalState::new();
    let function = function_state(vec![Type::U16]);
    let scope = root_scope();
    let mut stack = Stack::from(&vec![ptr(Type::U16), Type::U16]);
    let text = emit_operator("b", &Operator::Add(sp()), &mut global, &function, &mut stack, &scope).unwrap();
    assert_eq!(text, "    pop!  t1 t0\n    add   t0 t1\n    push! t0\n");
    assert_eq!(stack.to_vec(), vec![ptr(Type::U16)]);
    let mut stack = Stack::from(&vec![Type::U16, Type::U16]);
    let text = emit_operator("b", &Operator::Lte(sp()), &mut global, &function, &mut stack, &scope).unwrap();
    assert_eq!(
        text,
        "    pop!  t1 t0\n    imov  t2 0\n    sub   t0 t1\n    jp!   .b_opskip\n    imov  t2 1\n.b_opskip\n    push! t2\n"
    );
    let text = emit_operator("b", &Operator::LNot(sp()), &mut global, &function, &mut stack, &scope).unwrap();
    assert_eq!(
        text,
        "    pop!  t0\n    imov  t1 1\n    tst   t0\n    jz!   .b_nottrue\n    imov  t1 0\n.b_nottrue\n    push! t1\n"
    );
    assert_eq!(stack.to_vec(), vec![Type::U16]);
    let text = emit_operator("b", &Operator::Return(sp()), &mut global, &function, &mut stack, &scope).unwrap();
    assert_eq!(text, "    imov! t0 0\n    add   t5 t0\n    jmp!  .fn_f_exit\n");
    let text =
        emit_operator("b", &Operator::As(sp(), LexType::Ptr(Box::new(base("bool")))), &mut global, &function, &mut stack, &scope)
            .unwrap();
    assert_eq!(text, "");
    assert_eq!(stack.to_vec(), vec![ptr(Type::Bool)]);
    let e = emit_operator("b", &Operator::As(at(1, 1), base("Nope")), &mut global, &function, &mut stack, &scope)
        .unwrap_err();
    assert_eq!(e.kind, ErrorKind::UnknownType);
    let e = emit_operator("b", &Operator::BOr(at(1, 1)), &mut global, &function, &mut stack, &scope)
        .unwrap_err();
    assert_eq!(e.kind, ErrorKind::StackMismatch);
    assert_eq!(emit_operator("b", &Operator::Hole(sp()), &mut global, &function, &mut stack, &scope).unwrap(), "");
}

#[test]
fn a_call_through_a_pointer_applies_the_signature() {
    let mut global = GlobalState::new();
    global.function_signatures.insert(
        "inc".to_string(),
        FunctionType { in_t: vec![Type::U16], out_t: vec![Type::U16, Type::Bool] },
    );
    let function = function_state(vec![]);
    let scope = root_scope();
    let mut stack = Stack::from(&vec![Type::U16]);
    let text =
        emit_operator("b", &Operator::Ptr(sp(), ident("inc")), &mut global, &function, &mut stack, &scope).unwrap();
    assert_eq!(text, "    imov! t0 .fn_inc\n    push  t0\n");
    assert_eq!(stack.peek().unwrap(), ptr(Type::Function(FunctionType { in_t: vec![Type::U16], out_t: vec![Type::U16, Type::Bool] })));
    let text = emit_operator("b", &Operator::Call(sp()), &mut global, &function, &mut stack, &scope).unwrap();
    assert_eq!(text, "    imov! t0 .b_retaddr_1\n    push  t5 t0\n    pop   t0\n    jmp   t0\n.b_retaddr_1\n");
    assert_eq!(stack.to_vec(), vec![Type::U16, Type::Bool]);
    let used = global.function_dependencies.calculate_used();
    assert_eq!(used.len(), 0);
    global.function_dependencies.add_root("f".to_string());
    let used = global.function_dependencies.calculate_used();
    assert!(used.contains(&"inc".to_string()));
    let mut stack = Stack::from(&vec![ptr(Type::U16)]);
    let e = emit_operator("b", &Operator::Call(at(8, 9)), &mut global, &function, &mut stack, &scope).unwrap_err();
    assert_eq!(e.kind, ErrorKind::NotAFunctionPointer);
    let mut stack = Stack::from(&vec![Type::U16]);
    let e = emit_operator("b", &Operator::Call(at(8, 9)), &mut global, &function, &mut stack, &scope).unwrap_err();
    assert_eq!(e.kind, ErrorKind::StackMismatch);
    let e = emit_operator("b", &Operator::Ptr(at(8, 9), ident("dec")), &mut global, &function, &mut stack, &scope)
        .unwrap_err();
    assert_eq!(e.kind, ErrorKind::UnknownFunction);
}

#[test]
fn sizes_of_types() {
    let mut structs: NameTable<StructDefinition> = NameTable::new();
    structs.insert("P".to_string(), StructDefinition { members: NameTable::new(), size: 5 });
    assert_eq!(Type::U16.type_size(&structs), Ok(1));
    assert_eq!(ptr(Type::Struct("P".to_string())).type_size(&structs), Ok(1));
    assert_eq!(Type::Struct("P".to_string()).type_size(&structs), Ok(5));
    assert_eq!(Type::Struct("Q".to_string()).type_size(&structs), Err(ErrorKind::UnknownStruct));
    assert_eq!(vec![Type::U16, Type::Struct("P".to_string()), Type::Bool].type_size(&structs), Ok(7));
    assert_eq!(
        vec![Type::U16, Type::Struct("Q".to_string())].type_size(&structs),
        Err(ErrorKind::UnknownStruct)
    );
    assert_eq!(Vec::<Type>::new().type_size(&structs), Ok(0));
}

#[test]
fn counts_must_not_be_negative_and_sizes_must_fit() {
    let element = |val: isize| op(Operator::ConstArrayAccess(at(6, 7), IntLiteral { span: sp(), val }));
    let lines = || LexType::Ptr(Box::new(base("Line")));
    let m = point_module(vec![func("main", vec![lines()], vec![lines()], vec![element(-1)])]);
    let e = emit_root_module(&m).unwrap_err();
    assert_eq!(e.kind, ErrorKind::InvalidSize);
    assert_eq!(e.span, at(6, 7));
    let m = point_module(vec![func("main", vec![lines()], vec![lines()], vec![element(isize::MAX)])]);
    assert_eq!(kind_of(&m), ErrorKind::SizeOverflow);
    let m = point_module(vec![func("main", vec![lines()], vec![lines()], vec![element(2)])]);
    assert!(emit_root_module(&m).unwrap().contains("    imov! t1 14\n"));
    let mut m = point_module(vec![]);
    m.struct_defs[1].members[0].size = -1;
    assert_eq!(kind_of(&m), ErrorKind::InvalidSize);
    let mut m = point_module(vec![]);
    m.struct_defs[0].members[1].size = isize::MAX;
    assert_eq!(kind_of(&m), ErrorKind::SizeOverflow);
    let mut m = point_module(vec![]);
    m.globals = vec![Global {
        span: sp(),
        name: ident("g"),
        size: -3,
        var_type: base("u16"),
        val: IntLiteral { span: sp(), val: 0 },
    }];
    assert_eq!(kind_of(&m), ErrorKind::InvalidSize);
}

#[test]
fn labels_run_out_at_the_limit_of_the_counter() {
    let stmt = Statement::If(If { span: at(4, 5), if_block: block(vec![]), else_block: None });
    let mut global = GlobalState::new();
    global.label_counter = usize::MAX - 2;
    let mut function = function_state(vec![]);
    let mut stack = Stack::from(&vec![Type::U16]);
    let e = emit_statement("b", &stmt, &mut global, &mut function, &mut stack, &root_scope(), 0)
        .unwrap_err();
    assert_eq!(e.kind, ErrorKind::LabelsExhausted);
    assert_eq!(e.span, at(4, 5));
    global.label_counter = usize::MAX - 3;
    assert!(emit_statement("b", &stmt, &mut global, &mut function, &mut stack, &root_scope(), 0).is_ok());
    assert_eq!(global.label_counter, usize::MAX);
    let mut stack = Stack::from(&vec![Type::U16]);
    let e = emit_statement("b", &op(Operator::BNot(at(1, 2))), &mut global, &mut function, &mut stack, &root_scope(), 0)
        .unwrap_err();
    assert_eq!(e.kind, ErrorKind::LabelsExhausted);
    assert_eq!(e.span, at(1, 2));
    global.const_allocs.id = usize::MAX;
    let e = emit_statement(
        "b",
        &Statement::IntArray(IntArray { span: at(2, 3), val: vec![1] }),
        &mut global,
        &mut function,
        &mut stack,
        &root_scope(),
        0,
    )
    .unwrap_err();
    assert_eq!(e.kind, ErrorKind::LabelsExhausted);
}
