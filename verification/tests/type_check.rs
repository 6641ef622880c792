use toast::ast::Span;
use toast::error::ErrorKind;
use toast::gss::Stack;
use toast::type_check::{
    check_and_apply_multiple_stack_transitions, check_and_apply_stack_transition,
    resolve_generic_type, type_matches,
};
use toast::table::NameTable;
use toast::types::{FunctionType, Type};

fn span() -> Span {
    Span::new(3, 9)
}

fn ptr(t: Type) -> Type {
    Type::Pointer(1, Box::new(t))
}

fn gen(label: &str) -> Type {
    Type::new_generic(label)
}

fn add_rules() -> Vec<(Vec<Type>, Vec<Type>)> {
    vec![
        (vec![ptr(gen("$a")), Type::U16], vec![ptr(gen("$a"))]),
        (vec![Type::U16, ptr(gen("$a"))], vec![ptr(gen("$a"))]),
        (vec![Type::U16, Type::U16], vec![Type::U16]),
    ]
}

fn sub_rules() -> Vec<(Vec<Type>, Vec<Type>)> {
    vec![
        (vec![ptr(gen("$a")), Type::U16], vec![ptr(gen("$a"))]),
        (vec![ptr(gen("$a")), ptr(gen("$a"))], vec![Type::U16]),
        (vec![Type::U16, Type::U16], vec![Type::U16]),
    ]
}

#[test]
fn dup_of_a_pointer_yields_two_pointers() {
    let mut stack = Stack::from(&vec![ptr(Type::U16)]);
    let dropped = check_and_apply_stack_transition(
        "dup",
        &span(),
        &mut stack,
        &vec![gen("$a")],
        &vec![gen("$a"), gen("$a")],
    )
    .unwrap();
    assert_eq!(dropped, vec![ptr(Type::U16)]);
    assert_eq!(stack.to_vec(), vec![ptr(Type::U16), ptr(Type::U16)]);
    assert_eq!(stack.len, 2);
}

#[test]
fn swap_exchanges_two_types() {
    let foo = ptr(Type::Struct("Foo".to_string()));
    let mut stack = Stack::from(&vec![Type::Bool, Type::U16, foo.clone()]);
    let dropped = check_and_apply_stack_transition(
        "swap",
        &span(),
        &mut stack,
        &vec![gen("$a"), gen("$b")],
        &vec![gen("$b"), gen("$a")],
    )
    .unwrap();
    assert_eq!(dropped, vec![Type::U16, foo.clone()]);
    assert_eq!(stack.to_vec(), vec![Type::Bool, foo, Type::U16]);
}

#[test]
fn one_label_cannot_stand_for_two_types() {
    let mut stack = Stack::from(&vec![Type::U16, ptr(Type::U16)]);
    let e = check_and_apply_stack_transition(
        "=",
        &span(),
        &mut stack,
        &vec![gen("$a"), gen("$a")],
        &vec![Type::U16],
    )
    .unwrap_err();
    assert_eq!(e.kind, ErrorKind::StackMismatch);
    assert_eq!(e.span, span());
    assert_eq!(stack.to_vec(), vec![Type::U16, ptr(Type::U16)]);
    // two labels are independent
    check_and_apply_stack_transition(
        "over",
        &span(),
        &mut stack,
        &vec![gen("$a"), gen("$b")],
        &vec![gen("$a"), gen("$b"), gen("$a")],
    )
    .unwrap();
    assert_eq!(stack.to_vec(), vec![Type::U16, ptr(Type::U16), Type::U16]);
}

#[test]
fn load_and_store_go_through_one_pointer_level() {
    let mut stack = Stack::from(&vec![Type::Pointer(2, Box::new(Type::U16))]);
    check_and_apply_stack_transition(
        "load",
        &span(),
        &mut stack,
        &vec![ptr(gen("$a"))],
        &vec![gen("$a")],
    )
    .unwrap();
    assert_eq!(stack.to_vec(), vec![ptr(Type::U16)]);
    let mut stack = Stack::from(&vec![Type::U16, ptr(Type::U16)]);
    check_and_apply_stack_transition(
        "store",
        &span(),
        &mut stack,
        &vec![gen("$a"), ptr(gen("$a"))],
        &vec![],
    )
    .unwrap();
    assert!(stack.is_empty());
    let mut stack = Stack::from(&vec![Type::Bool, ptr(Type::U16)]);
    assert!(check_and_apply_stack_transition(
        "store",
        &span(),
        &mut stack,
        &vec![gen("$a"), ptr(gen("$a"))],
        &vec![],
    )
    .is_err());
    let mut stack = Stack::from(&vec![Type::U16]);
    assert!(check_and_apply_stack_transition(
        "load",
        &span(),
        &mut stack,
        &vec![ptr(gen("$a"))],
        &vec![gen("$a")],
    )
    .is_err());
}

#[test]
fn too_few_items_and_unbound_labels_fail() {
    let mut stack = Stack::from(&vec![Type::U16]);
    let e = check_and_apply_stack_transition(
        "+",
        &span(),
        &mut stack,
        &vec![Type::U16, Type::U16],
        &vec![Type::U16],
    )
    .unwrap_err();
    assert_eq!(e.kind, ErrorKind::StackMismatch);
    let e = check_and_apply_stack_transition(
        "odd",
        &span(),
        &mut stack,
        &vec![Type::U16],
        &vec![gen("$z")],
    )
    .unwrap_err();
    assert_eq!(e.kind, ErrorKind::UnboundGeneric);
    assert_eq!(stack.to_vec(), vec![Type::U16]);
}

#[test]
fn plus_keeps_the_pointer() {
    let mut stack = Stack::from(&vec![ptr(Type::U16), Type::U16]);
    check_and_apply_multiple_stack_transitions("+", &span(), &mut stack, &add_rules()).unwrap();
    assert_eq!(stack.to_vec(), vec![ptr(Type::U16)]);
    let mut stack = Stack::from(&vec![Type::U16, ptr(Type::Bool)]);
    check_and_apply_multiple_stack_transitions("+", &span(), &mut stack, &add_rules()).unwrap();
    assert_eq!(stack.to_vec(), vec![ptr(Type::Bool)]);
    let mut stack = Stack::from(&vec![Type::U16, Type::U16]);
    check_and_apply_multiple_stack_transitions("+", &span(), &mut stack, &add_rules()).unwrap();
    assert_eq!(stack.to_vec(), vec![Type::U16]);
    let mut stack = Stack::from(&vec![ptr(Type::U16), ptr(Type::U16)]);
    let e = check_and_apply_multiple_stack_transitions("+", &span(), &mut stack, &add_rules())
        .unwrap_err();
    assert_eq!(e.kind, ErrorKind::NoMatchingRule);
    assert_eq!(e.span, span());
    assert_eq!(stack.to_vec(), vec![ptr(Type::U16), ptr(Type::U16)]);
}

#[test]
fn minus_of_two_pointers_is_a_distance() {
    let mut stack = Stack::from(&vec![ptr(Type::U16), ptr(Type::U16)]);
    check_and_apply_multiple_stack_transitions("-", &span(), &mut stack, &sub_rules()).unwrap();
    assert_eq!(stack.to_vec(), vec![Type::U16]);
    let mut stack = Stack::from(&vec![ptr(Type::U16), ptr(Type::Bool)]);
    let e = check_and_apply_multiple_stack_transitions("-", &span(), &mut stack, &sub_rules())
        .unwrap_err();
    assert_eq!(e.kind, ErrorKind::NoMatchingRule);
    let mut stack = Stack::from(&vec![ptr(Type::U16), Type::U16]);
    check_and_apply_multiple_stack_transitions("-", &span(), &mut stack, &sub_rules()).unwrap();
    assert_eq!(stack.to_vec(), vec![ptr(Type::U16)]);
}

#[test]
fn function_types_match_inputs_and_outputs() {
    let sig = Type::Function(FunctionType { in_t: vec![gen("$a")], out_t: vec![gen("$a"), gen("$b")] });
    let good = Type::Function(FunctionType {
        in_t: vec![Type::U16],
        out_t: vec![Type::U16, Type::Bool],
    });
    let bad = Type::Function(FunctionType {
        in_t: vec![Type::U16],
        out_t: vec![Type::Bool, Type::Bool],
    });
    let short = Type::Function(FunctionType { in_t: vec![Type::U16], out_t: vec![Type::U16] });
    let mut generics = NameTable::new();
    assert!(type_matches(&ptr(good), &ptr(sig.clone()), &mut generics));
    assert_eq!(generics.get(&"$b".to_string()), Some(&Type::Bool));
    let mut generics = NameTable::new();
    assert!(!type_matches(&bad, &sig, &mut generics));
    let mut generics = NameTable::new();
    assert!(!type_matches(&short, &sig, &mut generics));
    let mut generics = NameTable::new();
    assert!(!type_matches(&Type::U16, &sig, &mut generics));
}

#[test]
fn resolve_replaces_labels_inside_pointers_and_functions() {
    let mut generics = NameTable::new();
    generics.insert("$a".to_string(), Type::Bool);
    let t = Type::Pointer(
        2,
        Box::new(Type::Function(FunctionType { in_t: vec![gen("$a")], out_t: vec![Type::U16] })),
    );
    let want = Type::Pointer(
        2,
        Box::new(Type::Function(FunctionType { in_t: vec![Type::Bool], out_t: vec![Type::U16] })),
    );
    assert_eq!(resolve_generic_type(&t, &generics), Ok(want));
    assert_eq!(resolve_generic_type(&gen("$b"), &generics), Err(ErrorKind::UnboundGeneric));
}

#[test]
fn pointer_depth() {
    let p = Type::U16.add_ref();
    assert_eq!(p, ptr(Type::U16));
    assert_eq!(p.add_ref(), Type::Pointer(2, Box::new(Type::U16)));
    assert_eq!(p.add_ref().de_ref(), Ok(ptr(Type::U16)));
    assert_eq!(p.de_ref(), Ok(Type::U16));
    assert_eq!(Type::U16.de_ref(), Err(ErrorKind::NotAPointer));
    assert_eq!(Type::Pointer(0, Box::new(Type::U16)).de_ref(), Err(ErrorKind::NotAPointer));
    assert_eq!(
        Type::baseline_pointers(&Type::Pointer(3, Box::new(Type::U16)), &ptr(gen("$a"))),
        Ok((Type::Pointer(2, Box::new(Type::U16)), gen("$a")))
    );
    assert_eq!(
        Type::baseline_pointers(&Type::U16, &ptr(Type::U16)),
        Ok((Type::U16, ptr(Type::U16)))
    );
    assert_eq!(
        Type::baseline_pointers(&ptr(Type::Bool), &ptr(Type::U16)),
        Ok((Type::Bool, Type::U16))
    );
}

#[test]
fn errors_say_what_was_required_and_what_was_found() {
    let mut stack = Stack::from(&vec![Type::U16, ptr(Type::U16)]);
    let e = check_and_apply_stack_transition(
        "=",
        &span(),
        &mut stack,
        &vec![gen("a"), gen("a")],
        &vec![Type::U16],
    )
    .unwrap_err();
    assert_eq!(
        e.message(),
        "Cannot invoke statement `=` as it requires types [$a, $a] at the top of the stack. Current stack is [u16, u16*]."
    );
    let e = check_and_apply_multiple_stack_transitions("-", &span(), &mut stack, &vec![(vec![Type::Bool], vec![])])
        .unwrap_err();
    assert_eq!(
        e.message(),
        "Cannot invoke statement `-` as it requires one of [bool] -> [] to match. Current stack is [u16, u16*]."
    );
}
