//! The types of values on the stack, and the layout of structs.

use crate::error::ErrorKind;
use vstd::prelude::*;
use vstd::std_specs::cmp::PartialEqSpecImpl;
use vstd::string::StringExecFns;

verus! {

/// The mathematical value of a [`Type`].
pub enum TypeView {
    U16,
    Bool,
    Pointer(int, Box<TypeView>),
    Struct(Seq<char>),
    Generic(Seq<char>),
    Function(Seq<TypeView>, Seq<TypeView>),
}

/// The type of a value on the stack: a number, a truth value, a pointer of a
/// depth of one or more, a struct by its qualified name, a generic type by
/// its label, or a function by its stack effect.
#[derive(Debug)]
pub enum Type {
    U16,
    Bool,
    Pointer(isize, Box<Type>),
    Struct(String),
    Generic(String),
    Function(FunctionType),
}

/// The stack effect of a function: what it takes and what it leaves, bottom first.
#[derive(Debug)]
pub struct FunctionType {
    pub in_t: Vec<Type>,
    pub out_t: Vec<Type>,
}

/// The values of a sequence of types.
pub open spec fn view_types(ts: Seq<Type>) -> Seq<TypeView>
    decreases ts, 0int,
{
    Seq::new(
        ts.len(),
        |i: int|
            if 0 <= i < ts.len() {
                view_type(ts[i])
            } else {
                TypeView::U16
            },
    )
}

/// The value of a type.
pub open spec fn view_type(t: Type) -> TypeView
    decreases t, 1int,
{
    match t {
        Type::U16 => TypeView::U16,
        Type::Bool => TypeView::Bool,
        Type::Pointer(depth, inner) => TypeView::Pointer(depth as int, Box::new(view_type(*inner))),
        Type::Struct(name) => TypeView::Struct(name@),
        Type::Generic(label) => TypeView::Generic(label@),
        Type::Function(f) => TypeView::Function(view_types(f.in_t@), view_types(f.out_t@)),
    }
}

impl View for Type {
    type V = TypeView;

    open spec fn view(&self) -> TypeView {
        view_type(*self)
    }
}

impl View for FunctionType {
    type V = (Seq<TypeView>, Seq<TypeView>);

    open spec fn view(&self) -> (Seq<TypeView>, Seq<TypeView>) {
        (view_types(self.in_t@), view_types(self.out_t@))
    }
}

impl TypeView {
    /// Every pointer in the type has a depth of at least one.
    pub open spec fn wf(self) -> bool
        decreases self,
    {
        match self {
            TypeView::Pointer(depth, inner) => depth >= 1 && inner.wf(),
            TypeView::Function(in_t, out_t) => {
                &&& forall|i: int| 0 <= i < in_t.len() ==> (#[trigger] in_t[i]).wf()
                &&& forall|i: int| 0 <= i < out_t.len() ==> (#[trigger] out_t[i]).wf()
            },
            _ => true,
        }
    }

    /// One more level of pointer around the type. A pointer gets a depth one
    /// higher; at the highest depth that the machine can count, and around
    /// any other type, a new pointer of depth one is put.
    pub open spec fn add_ref(self) -> TypeView {
        match self {
            TypeView::Pointer(depth, inner) => if depth < isize::MAX {
                TypeView::Pointer(depth + 1, inner)
            } else {
                TypeView::Pointer(1, Box::new(self))
            },
            t => TypeView::Pointer(1, Box::new(t)),
        }
    }

    /// What a pointer of this type points to; `None` for what is no pointer of depth one or more.
    pub open spec fn de_ref(self) -> Option<TypeView> {
        match self {
            TypeView::Pointer(depth, inner) => if depth == 1 {
                Some(*inner)
            } else if depth > 1 {
                Some(TypeView::Pointer(depth - 1, inner))
            } else {
                None
            },
            _ => None,
        }
    }

    /// The number of pointer levels that can be taken off in a row.
    pub open spec fn layers(self) -> nat
        decreases self,
    {
        match self {
            TypeView::Pointer(depth, inner) => if depth >= 1 {
                depth as nat + inner.layers()
            } else {
                0
            },
            _ => 0,
        }
    }
}

/// A pointer level that is put around a well-formed type can be taken off
/// again, and leaves the type; the pointer is well formed too.
pub proof fn add_ref_then_de_ref(t: TypeView)
    requires
        t.wf(),
    ensures
        t.add_ref().wf(),
        t.add_ref().de_ref() == Some(t),
{
}

/// What a well-formed pointer points to is well formed.
pub proof fn de_ref_keeps_well_formed(t: TypeView)
    requires
        t.wf(),
        t is Pointer,
    ensures
        t.de_ref() is Some,
        t.de_ref()->0.wf(),
{
}

/// Dereferencing takes off exactly one level.
pub proof fn lemma_de_ref_layers(t: TypeView)
    ensures
        match t.de_ref() {
            Some(inner) => t.layers() == inner.layers() + 1,
            None => t.layers() == 0,
        },
{
    reveal_with_fuel(TypeView::layers, 2);
}

/// The pair left when both types are dereferenced in step for as long as both
/// are pointers; `None` where a pointer of depth below one stands in the way.
pub open spec fn baseline(t1: TypeView, t2: TypeView) -> Option<(TypeView, TypeView)>
    decreases t1.layers(),
{
    if t1 is Pointer && t2 is Pointer {
        match (t1.de_ref(), t2.de_ref()) {
            (Some(d1), Some(d2)) => {
                proof {
                    lemma_de_ref_layers(t1);
                }
                baseline(d1, d2)
            },
            _ => None,
        }
    } else {
        Some((t1, t2))
    }
}

impl TypeView {
    /// What the type points to in the end: the type under all its pointer levels.
    pub open spec fn pointee(self) -> TypeView
        decreases self,
    {
        match self {
            TypeView::Pointer(_, inner) => inner.pointee(),
            t => t,
        }
    }
}

/// The final pointee of a type is the type itself or a part of it.
pub proof fn lemma_pointee_inside(t: TypeView)
    ensures
        t.pointee() == t || decreases_to!(t => t.pointee()),
    decreases t,
{
    match t {
        TypeView::Pointer(_, inner) => {
            lemma_pointee_inside(*inner);
        },
        _ => {},
    }
}

/// Where the second type of a baseline is no pointer, it is the final pointee of the second type given.
pub proof fn lemma_baseline_pointee(t1: TypeView, t2: TypeView)
    ensures
        baseline(t1, t2) matches Some((s, q)) ==> q is Pointer || q == t2.pointee(),
        baseline(t1, t2) matches Some((s, q)) ==> !(s is Pointer && q is Pointer),
    decreases t1.layers(),
{
    if t1 is Pointer && t2 is Pointer {
        match (t1.de_ref(), t2.de_ref()) {
            (Some(d1), Some(d2)) => {
                lemma_de_ref_layers(t1);
                lemma_baseline_pointee(d1, d2);
            },
            _ => {},
        }
    }
}

/// Clones of the types of `ts`.
pub fn clone_types(ts: &Vec<Type>) -> (r: Vec<Type>)
    ensures
        view_types(r@) == view_types(ts@),
    decreases ts,
{
    let mut r: Vec<Type> = Vec::new();
    let mut i: usize = 0;
    while i < ts.len()
        invariant
            i <= ts.len(),
            r.len() == i,
            forall|k: int| 0 <= k < i ==> r[k]@ == ts[k]@,
        decreases ts.len() - i,
    {
        let c = ts[i].clone();
        r.push(c);
        i += 1;
    }
    assert(view_types(r@) =~= view_types(ts@));
    r
}

impl Clone for Type {
    fn clone(&self) -> (r: Type)
        ensures
            r@ == self@,
        decreases self,
    {
        match self {
            Type::U16 => Type::U16,
            Type::Bool => Type::Bool,
            Type::Pointer(depth, inner) => {
                let i: Type = (&**inner).clone();
                Type::Pointer(*depth, Box::new(i))
            },
            Type::Struct(name) => Type::Struct(name.clone()),
            Type::Generic(label) => Type::Generic(label.clone()),
            Type::Function(f) => {
                let in_t = clone_types(&f.in_t);
                let out_t = clone_types(&f.out_t);
                Type::Function(FunctionType { in_t, out_t })
            },
        }
    }
}

impl Clone for FunctionType {
    fn clone(&self) -> (r: FunctionType)
        ensures
            r@ == self@,
    {
        FunctionType { in_t: clone_types(&self.in_t), out_t: clone_types(&self.out_t) }
    }
}

/// Whether the two lists hold the same types in the same order.
pub fn same_types(a: &Vec<Type>, b: &Vec<Type>) -> (r: bool)
    ensures
        r == (view_types(a@) == view_types(b@)),
    decreases a,
{
    if a.len() != b.len() {
        assert(view_types(a@).len() != view_types(b@).len());
        return false;
    }
    let mut i: usize = 0;
    while i < a.len()
        invariant
            i <= a.len(),
            a.len() == b.len(),
            forall|k: int| 0 <= k < i ==> a[k]@ == b[k]@,
        decreases a.len() - i,
    {
        if !a[i].same(&b[i]) {
            assert(view_types(a@)[i as int] != view_types(b@)[i as int]);
            return false;
        }
        i += 1;
    }
    assert(view_types(a@) =~= view_types(b@));
    true
}

impl Type {
    /// Whether the two types are the same.
    pub fn same(&self, other: &Type) -> (r: bool)
        ensures
            r == (self@ == other@),
        decreases self,
    {
        match (self, other) {
            (Type::U16, Type::U16) => true,
            (Type::Bool, Type::Bool) => true,
            (Type::Pointer(d1, t1), Type::Pointer(d2, t2)) => *d1 == *d2 && (&**t1).same(&**t2),
            (Type::Struct(a), Type::Struct(b)) => *a == *b,
            (Type::Generic(a), Type::Generic(b)) => *a == *b,
            (Type::Function(f), Type::Function(g)) => {
                same_types(&f.in_t, &g.in_t) && same_types(&f.out_t, &g.out_t)
            },
            _ => false,
        }
    }

    /// Every pointer in the type has a depth of at least one.
    pub open spec fn wf(&self) -> bool {
        self@.wf()
    }

    /// The generic type of the label.
    pub fn new_generic(label: &str) -> (t: Type)
        ensures
            t@ == TypeView::Generic(label@),
    {
        Type::Generic(String::from_str(label))
    }

    /// One more level of pointer around the type.
    pub fn add_ref(&self) -> (t: Type)
        ensures
            t@ == self@.add_ref(),
    {
        match self {
            Type::Pointer(depth, inner) => {
                if *depth < isize::MAX {
                    let inner: Type = (&**inner).clone();
                    Type::Pointer(*depth + 1, Box::new(inner))
                } else {
                    Type::Pointer(1, Box::new(self.clone()))
                }
            },
            t => Type::Pointer(1, Box::new(t.clone())),
        }
    }

    /// What a pointer of this type points to. Fails on what is no pointer of depth one or more.
    pub fn de_ref(&self) -> (r: Result<Type, ErrorKind>)
        ensures
            match r {
                Ok(t) => self@.de_ref() == Some(t@),
                Err(e) => self@.de_ref() is None && e == ErrorKind::NotAPointer,
            },
    {
        match self {
            Type::Pointer(depth, inner) => {
                if *depth == 1 {
                    Ok((&**inner).clone())
                } else if *depth > 1 {
                    let inner: Type = (&**inner).clone();
                    Ok(Type::Pointer(*depth - 1, Box::new(inner)))
                } else {
                    Err(ErrorKind::NotAPointer)
                }
            },
            _ => Err(ErrorKind::NotAPointer),
        }
    }

    /// Dereferences both types in step for as long as both are pointers, and
    /// returns the pair that is left. Fails where a pointer of depth below one
    /// stands in the way.
    pub fn baseline_pointers(t1: &Type, t2: &Type) -> (r: Result<(Type, Type), ErrorKind>)
        ensures
            match r {
                Ok((b1, b2)) => baseline(t1@, t2@) == Some((b1@, b2@)),
                Err(e) => baseline(t1@, t2@) is None && e == ErrorKind::NotAPointer,
            },
    {
        let mut a = t1.clone();
        let mut b = t2.clone();
        loop
            invariant
                baseline(a@, b@) == baseline(t1@, t2@),
            decreases a@.layers(),
        {
            match (&a, &b) {
                (Type::Pointer(_, _), Type::Pointer(_, _)) => {
                    proof {
                        lemma_de_ref_layers(a@);
                    }
                    let da = a.de_ref();
                    let db = b.de_ref();
                    match (da, db) {
                        (Ok(x), Ok(y)) => {
                            a = x;
                            b = y;
                        },
                        _ => {
                            return Err(ErrorKind::NotAPointer);
                        },
                    }
                },
                _ => {
                    return Ok((a, b));
                },
            }
        }
    }
}

impl PartialEq for Type {
    fn eq(&self, other: &Type) -> (r: bool) {
        self.same(other)
    }
}

impl PartialEqSpecImpl for Type {
    open spec fn obeys_eq_spec() -> bool {
        true
    }

    open spec fn eq_spec(&self, other: &Type) -> bool {
        self@ == other@
    }
}

} // verus!
