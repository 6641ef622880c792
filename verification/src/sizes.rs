//! The sizes of types, in words.

use crate::error::ErrorKind;
use crate::table::{held, value_in, NameTable};
use crate::types::{view_types, Type, TypeView};
use vstd::prelude::*;

verus! {

/// The layout of a struct.
pub struct StructDefinition {
    /// For each member its offset from the start of the struct, in words, and its type.
    pub members: NameTable<(usize, Type)>,
    /// The size of the struct in words.
    pub size: usize,
}

/// The mathematical value of the layout of a struct.
pub struct DefView {
    /// For each member its offset in words and its type.
    pub members: Seq<(Seq<char>, (nat, TypeView))>,
    /// The size of the struct in words.
    pub size: nat,
}

/// The value of a member's entry.
pub open spec fn member_of(entry: (usize, Type)) -> (nat, TypeView) {
    (entry.0 as nat, entry.1@)
}

/// The value of a layout.
pub open spec fn def_view(d: StructDefinition) -> DefView {
    DefView { members: d.members.mapped(|entry: (usize, Type)| member_of(entry)), size: d.size as nat }
}

/// The layouts as entries.
pub open spec fn view_definitions(defs: NameTable<StructDefinition>) -> Seq<(Seq<char>, DefView)> {
    defs.mapped(|d: StructDefinition| def_view(d))
}

/// What a table of layouts holds, its entries hold, and with the same values.
pub proof fn lemma_view_definitions(defs: NameTable<StructDefinition>)
    ensures
        forall|name: Seq<char>| held(view_definitions(defs), name) == defs.has(name),
        forall|name: Seq<char>|
            defs.has(name) ==> value_in(view_definitions(defs), name) == def_view(defs.value(name)),
        (|k: Seq<char>| defs.has(k)) == (|k: Seq<char>| held(view_definitions(defs), k)),
{
    defs.lemma_mapped(|d: StructDefinition| def_view(d));
    assert((|k: Seq<char>| defs.has(k)) =~= (|k: Seq<char>| held(view_definitions(defs), k)));
}

/// The size in words of a value of type `t`: that of the struct for a struct
/// type, one word for any other type. `None` for a struct without a layout.
pub open spec fn size_of_type(t: TypeView, structs: Seq<(Seq<char>, DefView)>) -> Option<nat> {
    match t {
        TypeView::Struct(name) => if held(structs, name) {
            Some(value_in(structs, name).size)
        } else {
            None
        },
        _ => Some(1),
    }
}

/// The name of the struct of a struct type; the empty name for any other
/// type.
pub open spec fn struct_name(t: TypeView) -> Seq<char> {
    match t {
        TypeView::Struct(name) => name,
        _ => Seq::empty(),
    }
}

impl Type {
    /// The name of the struct of a struct type; the empty name for any other
    /// type.
    pub fn struct_name(&self) -> (r: String)
        ensures
            r@ == struct_name(self@),
    {
        match self {
            Type::Struct(name) => name.clone(),
            _ => String::new(),
        }
    }
}

/// The sizes of the first `n` types added up in order. Fails at the first
/// type whose struct the table lacks, or at the first sum that a `usize`
/// cannot hold.
pub open spec fn size_of_types(ts: Seq<TypeView>, structs: Seq<(Seq<char>, DefView)>, n: nat) -> Result<
    nat,
    ErrorKind,
>
    decreases n,
{
    if n == 0 || n > ts.len() {
        Ok(0)
    } else {
        match size_of_types(ts, structs, (n - 1) as nat) {
            Err(e) => Err(e),
            Ok(sum) => match size_of_type(ts[n - 1], structs) {
                None => Err(ErrorKind::UnknownStruct),
                Some(size) => if sum + size > usize::MAX {
                    Err(ErrorKind::SizeOverflow)
                } else {
                    Ok(sum + size)
                },
            },
        }
    }
}

/// What has a size in words, given the layouts of the structs.
pub trait TypeSize {
    /// The size, or the reason for which there is none.
    spec fn size_in(&self, structs: NameTable<StructDefinition>) -> Result<nat, ErrorKind>;

    fn type_size(&self, structs: &NameTable<StructDefinition>) -> (r: Result<usize, ErrorKind>)
        ensures
            match r {
                Ok(n) => self.size_in(*structs) == Ok::<nat, ErrorKind>(n as nat),
                Err(e) => self.size_in(*structs) == Err::<nat, ErrorKind>(e),
            },
    ;
}

impl TypeSize for Type {
    open spec fn size_in(&self, structs: NameTable<StructDefinition>) -> Result<nat, ErrorKind> {
        match size_of_type(self@, view_definitions(structs)) {
            Some(n) => Ok(n),
            None => Err(ErrorKind::UnknownStruct),
        }
    }

    fn type_size(&self, structs: &NameTable<StructDefinition>) -> (r: Result<usize, ErrorKind>) {
        proof {
            lemma_view_definitions(*structs);
        }
        match self {
            Type::Struct(name) => match structs.get(name) {
                Some(def) => Ok(def.size),
                None => Err(ErrorKind::UnknownStruct),
            },
            _ => Ok(1),
        }
    }
}

impl TypeSize for Vec<Type> {
    open spec fn size_in(&self, structs: NameTable<StructDefinition>) -> Result<nat, ErrorKind> {
        size_of_types(view_types(self@), view_definitions(structs), self@.len())
    }

    fn type_size(&self, structs: &NameTable<StructDefinition>) -> (r: Result<usize, ErrorKind>) {
        let mut sum: usize = 0;
        let mut i: usize = 0;
        while i < self.len()
            invariant
                i <= self.len(),
                size_of_types(view_types(self@), view_definitions(*structs), i as nat) == Ok::<nat, ErrorKind>(
                    sum as nat,
                ),
            decreases self.len() - i,
        {
            assert(view_types(self@)[i as int] == self@[i as int]@);
            match self[i].type_size(structs) {
                Err(e) => {
                    proof {
                        lemma_size_of_types_fails(
                            view_types(self@),
                            view_definitions(*structs),
                            (i + 1) as nat,
                            self@.len(),
                        );
                    }
                    return Err(e);
                },
                Ok(size) => {
                    if size > usize::MAX - sum {
                        proof {
                            lemma_size_of_types_fails(
                                view_types(self@),
                                view_definitions(*structs),
                                (i + 1) as nat,
                                self@.len(),
                            );
                        }
                        return Err(ErrorKind::SizeOverflow);
                    }
                    sum = sum + size;
                },
            }
            i += 1;
        }
        Ok(sum)
    }
}

/// Once the sum of a prefix fails, the sum of every longer prefix fails in the same way.
pub proof fn lemma_size_of_types_fails(
    ts: Seq<TypeView>,
    structs: Seq<(Seq<char>, DefView)>,
    n: nat,
    m: nat,
)
    requires
        size_of_types(ts, structs, n) is Err,
        n <= m <= ts.len(),
    ensures
        size_of_types(ts, structs, m) == size_of_types(ts, structs, n),
    decreases m,
{
    if n < m {
        lemma_size_of_types_fails(ts, structs, n, (m - 1) as nat);
    }
}

} // verus!
