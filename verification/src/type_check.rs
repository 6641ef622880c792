//! The check of stack effects. An operation declares the types that it takes
//! from the top of the stack and the types that it leaves there; the check
//! matches the declaration against the abstract stack, binds the generic types
//! of the declaration, and rewrites the stack.

use crate::ast::Span;
use crate::error::{failure, CompileError, ErrorKind, Failure};
use crate::gss::Stack;
use crate::render::{render_types, types_text};
use crate::table::NameTable;
use crate::types::{
    baseline, lemma_baseline_pointee, lemma_pointee_inside, view_types, FunctionType, Type,
    TypeView,
};
use vstd::prelude::*;
use vstd::string::StringExecFns;

verus! {

/// What the generic labels are bound to.
pub open spec fn bindings(t: NameTable<Type>) -> Map<Seq<char>, TypeView> {
    Map::new(|label: Seq<char>| t.has(label), |label: Seq<char>| t.value(label)@)
}

/// Matches a type found on the stack against a required type, under the
/// bindings made so far. Gives the bindings after the match, or `None` where
/// the types do not match.
///
/// Pointer levels that both types have are taken off first. A generic label
/// is bound to what it meets first and must meet the same type afterwards. A
/// function type matches a function type whose inputs and outputs match in
/// turn. Any other type matches itself only.
pub open spec fn unify(stack_t: TypeView, sig_t: TypeView, g: Map<Seq<char>, TypeView>) -> Option<
    Map<Seq<char>, TypeView>,
>
    decreases sig_t, 0nat,
{
    match baseline(stack_t, sig_t) {
        None => None,
        Some((s, q)) => match q {
            TypeView::Generic(label) => if g.dom().contains(label) {
                if g[label] == s {
                    Some(g)
                } else {
                    None
                }
            } else {
                Some(g.insert(label, s))
            },
            TypeView::Function(in_t, out_t) => match s {
                TypeView::Function(s_in, s_out) => if s_in.len() == in_t.len() && s_out.len()
                    == out_t.len() {
                    proof {
                        lemma_baseline_pointee(stack_t, sig_t);
                        lemma_pointee_inside(sig_t);
                    }
                    match unify_first(s_in, in_t, g, in_t.len()) {
                        Some(g1) => unify_first(s_out, out_t, g1, out_t.len()),
                        None => None,
                    }
                } else {
                    None
                },
                _ => None,
            },
            _ => if s == q {
                Some(g)
            } else {
                None
            },
        },
    }
}

/// Matches the first `n` types of `ss` against the first `n` of `qs`, one after
/// the other, each under the bindings that the ones before it made.
pub open spec fn unify_first(
    ss: Seq<TypeView>,
    qs: Seq<TypeView>,
    g: Map<Seq<char>, TypeView>,
    n: nat,
) -> Option<Map<Seq<char>, TypeView>>
    decreases qs, n,
{
    if n == 0 {
        Some(g)
    } else if n > qs.len() || n > ss.len() {
        None
    } else {
        match unify_first(ss, qs, g, (n - 1) as nat) {
            Some(g1) => unify(ss[n - 1], qs[n - 1], g1),
            None => None,
        }
    }
}

/// The type with each generic label replaced by what it is bound to; `None`
/// where a label is not bound.
pub open spec fn resolve(t: TypeView, g: Map<Seq<char>, TypeView>) -> Option<TypeView>
    decreases t, 0nat,
{
    match t {
        TypeView::Pointer(depth, inner) => match resolve(*inner, g) {
            Some(r) => Some(TypeView::Pointer(depth, Box::new(r))),
            None => None,
        },
        TypeView::Generic(label) => if g.dom().contains(label) {
            Some(g[label])
        } else {
            None
        },
        TypeView::Function(in_t, out_t) => match (resolve_all(in_t, g), resolve_all(out_t, g)) {
            (Some(a), Some(b)) => Some(TypeView::Function(a, b)),
            _ => None,
        },
        _ => Some(t),
    }
}

/// Each type of the list resolved; `None` where one of them has an unbound label.
pub open spec fn resolve_all(ts: Seq<TypeView>, g: Map<Seq<char>, TypeView>) -> Option<
    Seq<TypeView>,
>
    decreases ts, 1nat,
{
    if forall|i: int| 0 <= i < ts.len() ==> resolve(#[trigger] ts[i], g) is Some {
        Some(
            Seq::new(
                ts.len(),
                |i: int|
                    if 0 <= i < ts.len() {
                        resolve(ts[i], g)->0
                    } else {
                        TypeView::U16
                    },
            ),
        )
    } else {
        None
    }
}

/// The stack after an operation that takes `in_t` and leaves `out_t`, or the
/// reason for which the operation does not apply.
///
/// The operation applies where the stack holds at least as many items as
/// `in_t`, its top items match `in_t` from the lowest up, and every generic
/// label of `out_t` was bound by the match.
pub open spec fn transition(stack: Seq<TypeView>, in_t: Seq<TypeView>, out_t: Seq<TypeView>) -> Result<
    Seq<TypeView>,
    ErrorKind,
> {
    if stack.len() < in_t.len() {
        Err(ErrorKind::StackMismatch)
    } else {
        match unify_first(stack.skip(stack.len() - in_t.len()), in_t, Map::empty(), in_t.len()) {
            None => Err(ErrorKind::StackMismatch),
            Some(g) => match resolve_all(out_t, g) {
                None => Err(ErrorKind::UnboundGeneric),
                Some(out) => if stack.len() - in_t.len() + out.len() > usize::MAX {
                    Err(ErrorKind::StackTooDeep)
                } else {
                    Ok(stack.take(stack.len() - in_t.len()) + out)
                },
            },
        }
    }
}

/// The alternative stack effects of an operation.
pub open spec fn view_rules(rules: Seq<(Vec<Type>, Vec<Type>)>) -> Seq<
    (Seq<TypeView>, Seq<TypeView>),
> {
    Seq::new(rules.len(), |i: int| (view_types(rules[i].0@), view_types(rules[i].1@)))
}

/// The stack after the first of the rules, from `from` on, that applies.
pub open spec fn first_transition(
    stack: Seq<TypeView>,
    rules: Seq<(Seq<TypeView>, Seq<TypeView>)>,
    from: int,
) -> Result<Seq<TypeView>, ErrorKind>
    decreases rules.len() - from,
{
    if from < 0 || from >= rules.len() {
        Err(ErrorKind::NoMatchingRule)
    } else {
        match transition(stack, rules[from].0, rules[from].1) {
            Ok(after) => Ok(after),
            Err(_) => first_transition(stack, rules, from + 1),
        }
    }
}

/// The error of an operation of the name `name` that does not apply to the
/// stack: it names the operation, the types that it takes, and the stack.
pub open spec fn transition_failure(
    name: Seq<char>,
    span: Span,
    stack: Seq<TypeView>,
    in_t: Seq<TypeView>,
    kind: ErrorKind,
) -> Failure {
    failure(span, kind, name, types_text(in_t), types_text(stack))
}

/// The first `n` rules as text: for each a blank, what it takes, an arrow, and what it leaves.
pub open spec fn rules_text(rules: Seq<(Seq<TypeView>, Seq<TypeView>)>, n: nat) -> Seq<char>
    decreases n,
{
    if n == 0 || n > rules.len() {
        Seq::empty()
    } else {
        rules_text(rules, (n - 1) as nat) + " "@ + types_text(rules[n - 1].0) + " -> "@
            + types_text(rules[n - 1].1)
    }
}

/// The error of an operation of the name `name` none of whose rules applies
/// to the stack: it names the operation, every rule, and the stack.
pub open spec fn no_rule_failure(
    name: Seq<char>,
    span: Span,
    stack: Seq<TypeView>,
    rules: Seq<(Seq<TypeView>, Seq<TypeView>)>,
) -> Failure {
    failure(span, ErrorKind::NoMatchingRule, name, rules_text(rules, rules.len()), types_text(stack))
}

/// The types that an abstract stack holds, bottom first.
pub open spec fn stack_types(stack: Stack<Type>) -> Seq<TypeView> {
    view_types(stack@)
}

/// Replaces each generic label in the types of `ts` by the type that it is bound to.
pub fn resolve_generic_types(ts: &Vec<Type>, generics: &NameTable<Type>) -> (r: Result<
    Vec<Type>,
    ErrorKind,
>)
    ensures
        match r {
            Ok(out) => resolve_all(view_types(ts@), bindings(*generics)) == Some(view_types(out@)),
            Err(e) => resolve_all(view_types(ts@), bindings(*generics)) is None && e
                == ErrorKind::UnboundGeneric,
        },
    decreases ts, 1nat,
{
    let mut out: Vec<Type> = Vec::new();
    let mut i: usize = 0;
    while i < ts.len()
        invariant
            i <= ts.len(),
            out.len() == i,
            forall|k: int|
                0 <= k < i ==> resolve(#[trigger] view_types(ts@)[k], bindings(*generics)) == Some(
                    out[k]@,
                ),
        decreases ts.len() - i,
    {
        match resolve_generic_type(&ts[i], generics) {
            Ok(t) => {
                out.push(t);
            },
            Err(e) => {
                assert(resolve(view_types(ts@)[i as int], bindings(*generics)) is None);
                return Err(e);
            },
        }
        i += 1;
    }
    assert(resolve_all(view_types(ts@), bindings(*generics))->0 =~= view_types(out@));
    Ok(out)
}

/// Replaces each generic label in `out_t` by the type that it is bound to.
pub fn resolve_generic_type(out_t: &Type, generics: &NameTable<Type>) -> (r: Result<
    Type,
    ErrorKind,
>)
    ensures
        match r {
            Ok(t) => resolve(out_t@, bindings(*generics)) == Some(t@),
            Err(e) => resolve(out_t@, bindings(*generics)) is None && e
                == ErrorKind::UnboundGeneric,
        },
    decreases out_t, 0nat,
{
    match out_t {
        Type::Pointer(depth, inner) => {
            match resolve_generic_type(&**inner, generics) {
                Ok(t) => Ok(Type::Pointer(*depth, Box::new(t))),
                Err(e) => Err(e),
            }
        },
        Type::Generic(label) => {
            match generics.get(label) {
                Some(t) => Ok(t.clone()),
                None => Err(ErrorKind::UnboundGeneric),
            }
        },
        Type::Function(f) => {
            let in_t = resolve_generic_types(&f.in_t, generics);
            match in_t {
                Err(e) => Err(e),
                Ok(in_t) => {
                    match resolve_generic_types(&f.out_t, generics) {
                        Err(e) => Err(e),
                        Ok(out_t) => Ok(Type::Function(FunctionType { in_t, out_t })),
                    }
                },
            }
        },
        Type::U16 => Ok(Type::U16),
        Type::Bool => Ok(Type::Bool),
        Type::Struct(name) => Ok(Type::Struct(name.clone())),
    }
}

/// Matches the types of `stack_ts` against those of `sig_ts`, in order.
/// Where they do not match, nothing is said of the bindings left behind.
pub fn types_match(stack_ts: &Vec<Type>, sig_ts: &Vec<Type>, generics: &mut NameTable<Type>) -> (r:
    bool)
    requires
        stack_ts.len() == sig_ts.len(),
    ensures
        match unify_first(
            view_types(stack_ts@),
            view_types(sig_ts@),
            bindings(*old(generics)),
            sig_ts.len() as nat,
        ) {
            Some(g) => r && bindings(*final(generics)) == g,
            None => !r,
        },
    decreases view_types(sig_ts@), sig_ts.len(),
{
    let mut i: usize = 0;
    while i < sig_ts.len()
        invariant
            i <= sig_ts.len(),
            stack_ts.len() == sig_ts.len(),
            unify_first(
                view_types(stack_ts@),
                view_types(sig_ts@),
                bindings(*old(generics)),
                i as nat,
            ) == Some(bindings(*generics)),
        decreases sig_ts.len() - i,
    {
        assert(view_types(sig_ts@)[i as int] == sig_ts[i as int]@);
        assert(view_types(stack_ts@)[i as int] == stack_ts[i as int]@);
        if !type_matches(&stack_ts[i], &sig_ts[i], generics) {
            proof {
                lemma_unify_first_fails(
                    view_types(stack_ts@),
                    view_types(sig_ts@),
                    bindings(*old(generics)),
                    (i + 1) as nat,
                    sig_ts.len() as nat,
                );
            }
            return false;
        }
        i += 1;
    }
    true
}

/// Once a prefix fails to match, every longer prefix fails.
pub proof fn lemma_unify_first_fails(
    ss: Seq<TypeView>,
    qs: Seq<TypeView>,
    g: Map<Seq<char>, TypeView>,
    n: nat,
    m: nat,
)
    requires
        unify_first(ss, qs, g, n) is None,
        n <= m,
    ensures
        unify_first(ss, qs, g, m) is None,
    decreases m,
{
    if n < m {
        lemma_unify_first_fails(ss, qs, g, n, (m - 1) as nat);
    }
}

/// Matches a type found on the stack against a required type and records what
/// the generic labels get bound to. Where the types do not match, nothing is
/// said of the bindings left behind.
pub fn type_matches(stack_t: &Type, sig_t: &Type, generics: &mut NameTable<Type>) -> (r: bool)
    ensures
        match unify(stack_t@, sig_t@, bindings(*old(generics))) {
            Some(g) => r && bindings(*final(generics)) == g,
            None => !r,
        },
    decreases sig_t@, 0nat,
{
    let (s, q) = match Type::baseline_pointers(stack_t, sig_t) {
        Ok(pair) => pair,
        Err(_) => {
            return false;
        },
    };
    match q {
        Type::Generic(label) => {
            match generics.get(&label) {
                None => {
                    generics.insert(label, s);
                    assert(bindings(*generics) =~= bindings(*old(generics)).insert(label@, s@));
                    true
                },
                Some(bound) => bound.same(&s),
            }
        },
        Type::Function(sig_f) => {
            match s {
                Type::Function(stack_f) => {
                    assert(baseline(stack_t@, sig_t@) == Some(
                        (
                            TypeView::Function(
                                view_types(stack_f.in_t@),
                                view_types(stack_f.out_t@),
                            ),
                            TypeView::Function(view_types(sig_f.in_t@), view_types(sig_f.out_t@)),
                        ),
                    ));
                    if stack_f.in_t.len() != sig_f.in_t.len() || stack_f.out_t.len()
                        != sig_f.out_t.len() {
                        return false;
                    }
                    proof {
                        lemma_baseline_pointee(stack_t@, sig_t@);
                        lemma_pointee_inside(sig_t@);
                    }
                    if !types_match(&stack_f.in_t, &sig_f.in_t, generics) {
                        return false;
                    }
                    types_match(&stack_f.out_t, &sig_f.out_t, generics)
                },
                _ => false,
            }
        },
        q => s.same(&q),
    }
}

/// Checks that the top of the stack holds what `in_t` asks for, takes those
/// items off and puts `out_t` in their place, with its generic labels
/// resolved. Returns the items taken off, lowest first. On failure the stack
/// is left as it was.
pub fn check_and_apply_stack_transition(
    s: &str,
    span: &Span,
    stack_view: &mut Stack<Type>,
    in_t: &Vec<Type>,
    out_t: &Vec<Type>,
) -> (r: Result<Vec<Type>, CompileError>)
    requires
        old(stack_view).wf(),
    ensures
        final(stack_view).wf(),
        match r {
            Ok(dropped) => {
                &&& transition(
                    stack_types(*old(stack_view)),
                    view_types(in_t@),
                    view_types(out_t@),
                ) == Ok::<Seq<TypeView>, ErrorKind>(stack_types(*final(stack_view)))
                &&& view_types(dropped@) == stack_types(*old(stack_view)).skip(
                    old(stack_view)@.len() - in_t@.len(),
                )
            },
            Err(e) => {
                &&& transition(
                    stack_types(*old(stack_view)),
                    view_types(in_t@),
                    view_types(out_t@),
                ) == Err::<Seq<TypeView>, ErrorKind>(e.kind)
                &&& e@ == transition_failure(
                    s@,
                    *span,
                    stack_types(*old(stack_view)),
                    view_types(in_t@),
                    e.kind,
                )
                &&& *final(stack_view) == *old(stack_view)
            },
        },
{
    let length = stack_view.len;
    if length < in_t.len() {
        return Err(transition_error(s, span, ErrorKind::StackMismatch, in_t, stack_view));
    }
    let mut generics: NameTable<Type> = NameTable::new();
    let dropped = stack_view.peek_n(in_t.len());
    let ghost base = length - in_t.len();
    assert(view_types(dropped@) =~= stack_types(*stack_view).skip(base)) by {
        assert forall|k: int| 0 <= k < dropped@.len() implies dropped@[k]@ == stack_view@[base
            + k]@ by {
            assert(cloned(stack_view@.skip(base)[k], dropped@[k]));
        }
    }
    assert(bindings(generics) =~= Map::<Seq<char>, TypeView>::empty());
    if !types_match(&dropped, in_t, &mut generics) {
        return Err(transition_error(s, span, ErrorKind::StackMismatch, in_t, stack_view));
    }
    let produced = match resolve_generic_types(out_t, &generics) {
        Ok(produced) => produced,
        Err(kind) => {
            return Err(transition_error(s, span, kind, in_t, stack_view));
        },
    };
    if produced.len() > usize::MAX - (length - in_t.len()) {
        return Err(transition_error(s, span, ErrorKind::StackTooDeep, in_t, stack_view));
    }
    let mut i: usize = 0;
    while i < in_t.len()
        invariant
            i <= in_t.len(),
            in_t.len() <= length,
            length == old(stack_view)@.len(),
            stack_view.wf(),
            stack_view@ == old(stack_view)@.take(length - i),
        decreases in_t.len() - i,
    {
        let _ = stack_view.pop();
        assert(old(stack_view)@.take(length - i).drop_last() =~= old(stack_view)@.take(
            length - i - 1,
        ));
        i += 1;
    }
    let mut j: usize = 0;
    while j < produced.len()
        invariant
            j <= produced.len(),
            produced.len() <= usize::MAX - base,
            base == length - in_t.len(),
            length == old(stack_view)@.len(),
            in_t.len() <= length,
            stack_view.wf(),
            stack_view@.len() == base + j,
            stack_view@.take(base) == old(stack_view)@.take(base),
            forall|k: int| 0 <= k < j ==> stack_view@[base + k]@ == #[trigger] produced@[k]@,
        decreases produced.len() - j,
    {
        let t = produced[j].clone();
        let ghost before = stack_view@;
        stack_view.push(t);
        assert(stack_view@.take(base) =~= before.take(base));
        j += 1;
    }
    assert(stack_types(*stack_view) =~= stack_types(*old(stack_view)).take(base) + view_types(
        produced@,
    )) by {
        let a = stack_types(*stack_view);
        let b = stack_types(*old(stack_view)).take(base) + view_types(produced@);
        assert(a.len() == b.len());
        assert forall|k: int| 0 <= k < a.len() implies a[k] == b[k] by {
            if k < base {
                assert(stack_view@.take(base)[k] == old(stack_view)@.take(base)[k]);
            } else {
                assert(stack_view@[base + (k - base)]@ == produced@[k - base]@);
            }
        }
    }
    Ok(dropped)
}

/// The types of the stack as text.
pub fn render_stack(stack_view: &Stack<Type>) -> (r: String)
    ensures
        r@ == types_text(stack_types(*stack_view)),
{
    let items = stack_view.to_vec();
    assert(view_types(items@) =~= stack_types(*stack_view)) by {
        assert forall|k: int| 0 <= k < items@.len() implies items@[k]@ == stack_view@[k]@ by {
            assert(cloned(stack_view@[k], items@[k]));
        }
    }
    render_types(&items)
}

/// The error of the operation `s` that does not apply to the stack.
fn transition_error(
    s: &str,
    span: &Span,
    kind: ErrorKind,
    in_t: &Vec<Type>,
    stack_view: &Stack<Type>,
) -> (e: CompileError)
    ensures
        e@ == transition_failure(s@, *span, stack_types(*stack_view), view_types(in_t@), kind),
{
    CompileError::new(
        *span,
        kind,
        s,
        render_types(in_t).as_str(),
        render_stack(stack_view).as_str(),
    )
}

/// The rules as text.
fn render_rules(rules: &Vec<(Vec<Type>, Vec<Type>)>) -> (r: String)
    ensures
        r@ == rules_text(view_rules(rules@), rules@.len()),
{
    let ghost views = view_rules(rules@);
    let mut r = String::new();
    let mut k: usize = 0;
    while k < rules.len()
        invariant
            k <= rules.len(),
            views == view_rules(rules@),
            r@ == rules_text(views, k as nat),
        decreases rules.len() - k,
    {
        r.append(" ");
        r.append(render_types(&rules[k].0).as_str());
        r.append(" -> ");
        r.append(render_types(&rules[k].1).as_str());
        k += 1;
    }
    r
}

/// Applies the first of the alternative stack effects that matches the stack.
/// On failure the stack is left as it was.
pub fn check_and_apply_multiple_stack_transitions(
    s: &str,
    span: &Span,
    stack_view: &mut Stack<Type>,
    rules: &Vec<(Vec<Type>, Vec<Type>)>,
) -> (r: Result<(), CompileError>)
    requires
        old(stack_view).wf(),
    ensures
        final(stack_view).wf(),
        match r {
            Ok(()) => first_transition(stack_types(*old(stack_view)), view_rules(rules@), 0)
                == Ok::<Seq<TypeView>, ErrorKind>(stack_types(*final(stack_view))),
            Err(e) => {
                &&& first_transition(stack_types(*old(stack_view)), view_rules(rules@), 0)
                    == Err::<Seq<TypeView>, ErrorKind>(ErrorKind::NoMatchingRule)
                &&& e@ == no_rule_failure(
                    s@,
                    *span,
                    stack_types(*old(stack_view)),
                    view_rules(rules@),
                )
                &&& *final(stack_view) == *old(stack_view)
            },
        },
{
    let mut i: usize = 0;
    while i < rules.len()
        invariant
            i <= rules.len(),
            stack_view.wf(),
            *stack_view == *old(stack_view),
            first_transition(stack_types(*old(stack_view)), view_rules(rules@), 0)
                == first_transition(stack_types(*old(stack_view)), view_rules(rules@), i as int),
        decreases rules.len() - i,
    {
        match check_and_apply_stack_transition(s, span, stack_view, &rules[i].0, &rules[i].1) {
            Ok(_) => {
                return Ok(());
            },
            Err(_) => {},
        }
        i += 1;
    }
    Err(
        CompileError::new(
            *span,
            ErrorKind::NoMatchingRule,
            s,
            render_rules(rules).as_str(),
            render_stack(stack_view).as_str(),
        ),
    )
}

} // verus!
