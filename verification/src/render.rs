//! Types as text, for messages.

use crate::gss::Stack;
use crate::scope::prefixes;
use crate::types::{view_types, Type, TypeView};
use vstd::prelude::*;
use vstd::std_specs::vec::axiom_vec_index_decreases;
use vstd::string::StringExecFns;

verus! {

/// `n` stars.
pub open spec fn stars(n: int) -> Seq<char>
    decreases n,
{
    if n <= 0 {
        Seq::empty()
    } else {
        stars(n - 1).push('*')
    }
}

/// The first `n` types of the list as text, with a comma and a blank between two of them.
pub open spec fn listed(ts: Seq<TypeView>, n: nat) -> Seq<char>
    decreases ts, n,
{
    if n == 0 || n > ts.len() {
        Seq::empty()
    } else if n == 1 {
        type_text(ts[0])
    } else {
        listed(ts, (n - 1) as nat) + ", "@ + type_text(ts[n - 1])
    }
}

/// The list of types as text, in square brackets.
pub open spec fn types_text(ts: Seq<TypeView>) -> Seq<char>
    decreases ts, ts.len() + 1,
{
    "["@ + listed(ts, ts.len()) + "]"@
}

/// The type as text: `u16` and `bool` by name, a pointer as what it points
/// to and a star for each level, a struct by its name, a generic type as `$`
/// and its label, and a function as its inputs, an arrow and its outputs.
pub open spec fn type_text(t: TypeView) -> Seq<char>
    decreases t, 0nat,
{
    match t {
        TypeView::U16 => "u16"@,
        TypeView::Bool => "bool"@,
        TypeView::Pointer(depth, inner) => type_text(*inner) + stars(depth),
        TypeView::Struct(name) => name,
        TypeView::Generic(label) => "$"@ + label,
        TypeView::Function(in_t, out_t) => "("@ + types_text(in_t) + " -> "@ + types_text(out_t)
            + ")"@,
    }
}

/// The list of types as text.
pub fn render_types(ts: &Vec<Type>) -> (r: String)
    ensures
        r@ == types_text(view_types(ts@)),
    decreases ts, 1nat,
{
    let ghost views = view_types(ts@);
    let mut list = String::new();
    let mut i: usize = 0;
    while i < ts.len()
        invariant
            i <= ts.len(),
            views == view_types(ts@),
            list@ == listed(views, i as nat),
        decreases ts.len() - i,
    {
        proof {
            axiom_vec_index_decreases(*ts, i as int);
        }
        assert(views[i as int] == ts@[i as int]@);
        if i > 0 {
            list.append(", ");
            list.append(ts[i].render().as_str());
        } else {
            list = ts[i].render();
        }
        i += 1;
    }
    let mut r = String::from_str("[");
    r.append(list.as_str());
    r.append("]");
    r
}

impl Type {
    /// The type as text.
    pub fn render(&self) -> (r: String)
        ensures
            r@ == type_text(self@),
        decreases self, 0nat,
    {
        match self {
            Type::U16 => String::from_str("u16"),
            Type::Bool => String::from_str("bool"),
            Type::Pointer(depth, inner) => {
                let mut r = (&**inner).render();
                let ghost base = r@;
                let mut i: isize = 0;
                while i < *depth
                    invariant
                        0 <= i,
                        i <= *depth || i == 0,
                        r@ == base + stars(i as int),
                    decreases *depth - i,
                {
                    r.push('*');
                    assert(r@ =~= base + stars(i + 1));
                    i += 1;
                }
                assert(base + stars(0) =~= base);
                assert(*depth <= 0 ==> stars(*depth as int) =~= stars(0));
                assert(self@ == TypeView::Pointer(*depth as int, Box::new((**inner)@)));
                r
            },
            Type::Struct(name) => name.clone(),
            Type::Generic(label) => {
                let mut r = String::from_str("$");
                r.append(label.as_str());
                r
            },
            Type::Function(f) => {
                let mut r = String::from_str("(");
                r.append(render_types(&f.in_t).as_str());
                r.append(" -> ");
                r.append(render_types(&f.out_t).as_str());
                r.append(")");
                assert(self@ == TypeView::Function(view_types(f.in_t@), view_types(f.out_t@)));
                r
            },
        }
    }
}


/// The first `n` names of the list as text, each between backticks, with a
/// comma and a blank between two of them.
pub open spec fn names_listed(names: Seq<Seq<char>>, n: nat) -> Seq<char>
    decreases n,
{
    if n == 0 || n > names.len() {
        Seq::empty()
    } else {
        names_listed(names, (n - 1) as nat) + (if n == 1 {
            "`"@
        } else {
            ", `"@
        }) + names[n - 1] + "`"@
    }
}

/// The list of names as text, in square brackets.
pub open spec fn names_text(names: Seq<Seq<char>>) -> Seq<char> {
    "["@ + names_listed(names, names.len()) + "]"@
}

/// The prefixes of the using stack as text, the outermost first.
pub fn render_usings(using_stack: &Stack<String>) -> (r: String)
    ensures
        r@ == names_text(prefixes(*using_stack)),
{
    let names = using_stack.to_vec();
    let ghost views = prefixes(*using_stack);
    assert(crate::table::names_of(names@) =~= views) by {
        assert forall|k: int| 0 <= k < names@.len() implies names@[k]@ == using_stack@[k]@ by {
            assert(cloned(using_stack@[k], names@[k]));
        }
    }
    let mut list = String::new();
    let mut i: usize = 0;
    while i < names.len()
        invariant
            i <= names.len(),
            views == crate::table::names_of(names@),
            list@ == names_listed(views, i as nat),
        decreases names.len() - i,
    {
        if i == 0 {
            list.append("`");
        } else {
            list.append(", `");
        }
        list.append(names[i].as_str());
        list.append("`");
        i += 1;
    }
    let mut r = String::from_str("[");
    r.append(list.as_str());
    r.append("]");
    r
}

} // verus!
