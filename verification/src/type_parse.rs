//! From the types written in the source to the types of the checker.

use crate::ast::{FuncType, LexType};
use crate::error::ErrorKind;
use crate::gss::Stack;
use crate::scope::{find_name, prefixes, resolved};
use crate::table::NameTable;
use crate::types::{FunctionType, Type, TypeView};
use vstd::prelude::*;
use vstd::std_specs::vec::axiom_vec_index_decreases;
use vstd::string::StringExecFns;

verus! {

/// The type that the written type `t` stands for, where `defined` says which
/// qualified struct names exist and `usings` holds the prefixes in scope.
/// `None` where a name is neither `u16`, `bool` nor a struct in scope.
pub open spec fn parsed_type(t: LexType, defined: spec_fn(Seq<char>) -> bool, usings: Seq<Seq<char>>) -> Option<
    TypeView,
>
    decreases t, 0nat,
{
    match t {
        LexType::Base(identifier) => if identifier.name@ == "u16"@ {
            Some(TypeView::U16)
        } else if identifier.name@ == "bool"@ {
            Some(TypeView::Bool)
        } else {
            match resolved(usings, identifier.name@, defined) {
                Some(name) => Some(TypeView::Struct(name)),
                None => None,
            }
        },
        LexType::Ptr(underlying) => match parsed_type(*underlying, defined, usings) {
            Some(inner) => Some(inner.add_ref()),
            None => None,
        },
        LexType::Gen(base) => Some(TypeView::Generic(base.name@)),
        LexType::Func(f) => match (
            parsed_types(f.i@, defined, usings),
            parsed_types(f.o@, defined, usings),
        ) {
            (Some(in_t), Some(out_t)) => Some(TypeView::Function(in_t, out_t)),
            _ => None,
        },
    }
}

/// The types that the written types stand for; `None` where one of them stands for none.
pub open spec fn parsed_types(
    ts: Seq<LexType>,
    defined: spec_fn(Seq<char>) -> bool,
    usings: Seq<Seq<char>>,
) -> Option<Seq<TypeView>>
    decreases ts, 1nat,
{
    if forall|i: int| 0 <= i < ts.len() ==> parsed_type(#[trigger] ts[i], defined, usings) is Some {
        Some(
            Seq::new(
                ts.len(),
                |i: int|
                    if 0 <= i < ts.len() {
                        parsed_type(ts[i], defined, usings)->0
                    } else {
                        TypeView::U16
                    },
            ),
        )
    } else {
        None
    }
}

/// The stack effect that a written function type stands for.
pub open spec fn parsed_signature(
    t: FuncType,
    defined: spec_fn(Seq<char>) -> bool,
    usings: Seq<Seq<char>>,
) -> Option<(Seq<TypeView>, Seq<TypeView>)> {
    match (parsed_types(t.i@, defined, usings), parsed_types(t.o@, defined, usings)) {
        (Some(in_t), Some(out_t)) => Some((in_t, out_t)),
        _ => None,
    }
}

/// The first name of the written type `t`, from the left, that is neither
/// `u16`, `bool` nor a struct in scope; `None` where every name stands for a
/// type.
pub open spec fn unknown_in(t: LexType, defined: spec_fn(Seq<char>) -> bool, usings: Seq<Seq<char>>) -> Option<
    Seq<char>,
>
    decreases t, 0nat,
{
    match t {
        LexType::Base(identifier) => if identifier.name@ == "u16"@ || identifier.name@ == "bool"@
            || resolved(usings, identifier.name@, defined) is Some {
            None
        } else {
            Some(identifier.name@)
        },
        LexType::Ptr(underlying) => unknown_in(*underlying, defined, usings),
        LexType::Gen(_) => None,
        LexType::Func(f) => match unknown_among(f.i@, defined, usings, f.i@.len()) {
            Some(name) => Some(name),
            None => unknown_among(f.o@, defined, usings, f.o@.len()),
        },
    }
}

/// The first name among the first `n` written types that stands for no type
/// in scope.
pub open spec fn unknown_among(
    ts: Seq<LexType>,
    defined: spec_fn(Seq<char>) -> bool,
    usings: Seq<Seq<char>>,
    n: nat,
) -> Option<Seq<char>>
    decreases ts, n + 1,
{
    if n == 0 || n > ts.len() {
        None
    } else {
        match unknown_among(ts, defined, usings, (n - 1) as nat) {
            Some(name) => Some(name),
            None => unknown_in(ts[n - 1], defined, usings),
        }
    }
}

/// The first name of a written stack effect that stands for no type in
/// scope: of its inputs first, then of its outputs.
pub open spec fn unknown_in_signature(
    t: FuncType,
    defined: spec_fn(Seq<char>) -> bool,
    usings: Seq<Seq<char>>,
) -> Option<Seq<char>> {
    match unknown_among(t.i@, defined, usings, t.i@.len()) {
        Some(name) => Some(name),
        None => unknown_among(t.o@, defined, usings, t.o@.len()),
    }
}

/// The name, or the empty name where there is none.
pub open spec fn name_or_none(name: Option<Seq<char>>) -> Seq<char> {
    match name {
        Some(name) => name,
        None => Seq::empty(),
    }
}

/// Whether the name found is the name meant, or none was found and none
/// was meant.
pub open spec fn same_name(found: Option<String>, meant: Option<Seq<char>>) -> bool {
    match meant {
        Some(name) => found matches Some(text) && text@ == name,
        None => found is None,
    }
}

/// Once a name among the first types stands for no type, it is the first
/// such name among more of them too.
pub proof fn lemma_unknown_among_stays(
    ts: Seq<LexType>,
    defined: spec_fn(Seq<char>) -> bool,
    usings: Seq<Seq<char>>,
    n: nat,
    m: nat,
)
    requires
        unknown_among(ts, defined, usings, n) is Some,
        n <= m <= ts.len(),
    ensures
        unknown_among(ts, defined, usings, m) == unknown_among(ts, defined, usings, n),
    decreases m,
{
    if n < m {
        lemma_unknown_among_stays(ts, defined, usings, n, (m - 1) as nat);
    }
}

/// The first name among the written types that stands for no type in scope.
fn unknown_among_types<T>(ts: &Vec<LexType>, struct_defs: &NameTable<T>, using_stack: &Stack<String>) -> (r:
    Option<String>)
    ensures
        same_name(
            r,
            unknown_among(ts@, |k: Seq<char>| struct_defs.has(k), prefixes(*using_stack), ts@.len()),
        ),
    decreases ts, 1nat,
{
    let ghost defined = |k: Seq<char>| struct_defs.has(k);
    let mut i: usize = 0;
    while i < ts.len()
        invariant
            i <= ts.len(),
            defined == (|k: Seq<char>| struct_defs.has(k)),
            unknown_among(ts@, defined, prefixes(*using_stack), i as nat) is None,
        decreases ts.len() - i,
    {
        proof {
            axiom_vec_index_decreases(*ts, i as int);
        }
        if let Some(name) = Type::unknown_name(&ts[i], struct_defs, using_stack) {
            proof {
                lemma_unknown_among_stays(
                    ts@,
                    defined,
                    prefixes(*using_stack),
                    (i + 1) as nat,
                    ts@.len() as nat,
                );
            }
            return Some(name);
        }
        i += 1;
    }
    None
}

/// The name found as text: the empty text where none was found.
pub fn found_text(found: Option<String>) -> (r: String)
    ensures
        r@ == match found {
            Some(text) => text@,
            None => Seq::empty(),
        },
{
    match found {
        Some(text) => text,
        None => String::new(),
    }
}

/// Parses each type of `ts`.
fn parse_list<T>(ts: &Vec<LexType>, struct_defs: &NameTable<T>, using_stack: &Stack<String>) -> (r:
    Result<Vec<Type>, ErrorKind>)
    ensures
        match r {
            Ok(types) => parsed_types(ts@, |k: Seq<char>| struct_defs.has(k), prefixes(*using_stack)) == Some(
                crate::types::view_types(types@),
            ),
            Err(e) => parsed_types(ts@, |k: Seq<char>| struct_defs.has(k), prefixes(*using_stack)) is None
                && e == ErrorKind::UnknownType,
        },
    decreases ts, 1nat,
{
    let ghost defined = |k: Seq<char>| struct_defs.has(k);
    let mut types: Vec<Type> = Vec::new();
    let mut i: usize = 0;
    while i < ts.len()
        invariant
            i <= ts.len(),
            types@.len() == i,
            defined == (|k: Seq<char>| struct_defs.has(k)),
            forall|k: int|
                0 <= k < i ==> parsed_type(#[trigger] ts@[k], defined, prefixes(*using_stack)) == Some(
                    types@[k]@,
                ),
        decreases ts.len() - i,
    {
        proof {
            axiom_vec_index_decreases(*ts, i as int);
        }
        match Type::parse(&ts[i], struct_defs, using_stack) {
            Ok(t) => {
                types.push(t);
            },
            Err(e) => {
                assert(parsed_type(ts@[i as int], defined, prefixes(*using_stack)) is None);
                return Err(e);
            },
        }
        i += 1;
    }
    assert(parsed_types(ts@, defined, prefixes(*using_stack))->0 =~= crate::types::view_types(types@));
    Ok(types)
}

impl Type {
    /// The qualified name of the struct that `s` stands for.
    pub fn find_struct_def<T>(s: &str, struct_defs: &NameTable<T>, using_stack: &Stack<String>) -> (r:
        Option<String>)
        ensures
            match r {
                Some(name) => resolved(prefixes(*using_stack), s@, |k: Seq<char>| struct_defs.has(k))
                    == Some(name@),
                None => resolved(prefixes(*using_stack), s@, |k: Seq<char>| struct_defs.has(k)) is None,
            },
    {
        find_name(s, struct_defs, using_stack)
    }

    /// Parses the inputs and the outputs of a written stack effect.
    pub fn parse_types<T>(
        in_t: &Vec<LexType>,
        out_t: &Vec<LexType>,
        struct_defs: &NameTable<T>,
        using_stack: &Stack<String>,
    ) -> (r: Result<(Vec<Type>, Vec<Type>), ErrorKind>)
        ensures
            match r {
                Ok((i, o)) => {
                    &&& parsed_types(in_t@, |k: Seq<char>| struct_defs.has(k), prefixes(*using_stack))
                        == Some(crate::types::view_types(i@))
                    &&& parsed_types(out_t@, |k: Seq<char>| struct_defs.has(k), prefixes(*using_stack))
                        == Some(crate::types::view_types(o@))
                },
                Err(e) => {
                    &&& e == ErrorKind::UnknownType
                    &&& parsed_types(in_t@, |k: Seq<char>| struct_defs.has(k), prefixes(*using_stack)) is None
                        || parsed_types(out_t@, |k: Seq<char>| struct_defs.has(k), prefixes(*using_stack))
                        is None
                },
            },
    {
        let in_parsed = match parse_list(in_t, struct_defs, using_stack) {
            Ok(types) => types,
            Err(e) => {
                return Err(e);
            },
        };
        let out_parsed = match parse_list(out_t, struct_defs, using_stack) {
            Ok(types) => types,
            Err(e) => {
                return Err(e);
            },
        };
        Ok((in_parsed, out_parsed))
    }

    /// Parses a written function type.
    pub fn parse_func_def<T>(
        t: &FuncType,
        struct_defs: &NameTable<T>,
        using_stack: &Stack<String>,
    ) -> (r: Result<FunctionType, ErrorKind>)
        ensures
            match r {
                Ok(f) => parsed_signature(*t, |k: Seq<char>| struct_defs.has(k), prefixes(*using_stack))
                    == Some(f@),
                Err(e) => parsed_signature(*t, |k: Seq<char>| struct_defs.has(k), prefixes(*using_stack))
                    is None && e == ErrorKind::UnknownType,
            },
        decreases t, 2nat,
    {
        let in_t = match parse_list(&t.i, struct_defs, using_stack) {
            Ok(types) => types,
            Err(e) => {
                return Err(e);
            },
        };
        match parse_list(&t.o, struct_defs, using_stack) {
            Ok(out_t) => Ok(FunctionType { in_t, out_t }),
            Err(e) => Err(e),
        }
    }

    /// The first name of the written type, from the left, that is neither a
    /// built-in type nor a struct in scope; `None` where every name stands
    /// for a type.
    pub fn unknown_name<T>(t: &LexType, struct_defs: &NameTable<T>, using_stack: &Stack<String>) -> (r:
        Option<String>)
        ensures
            same_name(r, unknown_in(*t, |k: Seq<char>| struct_defs.has(k), prefixes(*using_stack))),
        decreases t, 0nat,
    {
        match t {
            LexType::Base(identifier) => {
                if identifier.name == String::from_str("u16") || identifier.name == String::from_str(
                    "bool",
                ) {
                    None
                } else {
                    match Type::find_struct_def(identifier.name.as_str(), struct_defs, using_stack) {
                        Some(_) => None,
                        None => Some(identifier.name.clone()),
                    }
                }
            },
            LexType::Ptr(underlying) => Type::unknown_name(&**underlying, struct_defs, using_stack),
            LexType::Gen(_) => None,
            LexType::Func(f) => Type::unknown_in_func_def(f, struct_defs, using_stack),
        }
    }

    /// The first name of the written stack effect that stands for no type in
    /// scope: of its inputs first, then of its outputs.
    pub fn unknown_in_func_def<T>(
        t: &FuncType,
        struct_defs: &NameTable<T>,
        using_stack: &Stack<String>,
    ) -> (r: Option<String>)
        ensures
            same_name(
                r,
                unknown_in_signature(*t, |k: Seq<char>| struct_defs.has(k), prefixes(*using_stack)),
            ),
        decreases t, 2nat,
    {
        match unknown_among_types(&t.i, struct_defs, using_stack) {
            Some(name) => Some(name),
            None => unknown_among_types(&t.o, struct_defs, using_stack),
        }
    }


    /// Parses a written type against the structs of `struct_defs`. Fails on a
    /// name that is neither a built-in type nor a struct in scope.
    pub fn parse<T>(t: &LexType, struct_defs: &NameTable<T>, using_stack: &Stack<String>) -> (r:
        Result<Type, ErrorKind>)
        ensures
            match r {
                Ok(parsed) => parsed_type(*t, |k: Seq<char>| struct_defs.has(k), prefixes(*using_stack))
                    == Some(parsed@),
                Err(e) => parsed_type(*t, |k: Seq<char>| struct_defs.has(k), prefixes(*using_stack)) is None
                    && e == ErrorKind::UnknownType,
            },
        decreases t, 0nat,
    {
        match t {
            LexType::Base(identifier) => {
                if identifier.name == String::from_str("u16") {
                    Ok(Type::U16)
                } else if identifier.name == String::from_str("bool") {
                    Ok(Type::Bool)
                } else {
                    match Type::find_struct_def(identifier.name.as_str(), struct_defs, using_stack) {
                        Some(name) => Ok(Type::Struct(name)),
                        None => Err(ErrorKind::UnknownType),
                    }
                }
            },
            LexType::Ptr(underlying) => {
                match Type::parse(&**underlying, struct_defs, using_stack) {
                    Ok(inner) => Ok(inner.add_ref()),
                    Err(e) => Err(e),
                }
            },
            LexType::Gen(base) => Ok(Type::Generic(base.name.clone())),
            LexType::Func(f) => {
                match Type::parse_func_def(f, struct_defs, using_stack) {
                    Ok(parsed) => Ok(Type::Function(parsed)),
                    Err(e) => Err(e),
                }
            },
        }
    }
}

} // verus!
