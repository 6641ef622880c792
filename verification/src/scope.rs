//! How a short name is resolved. The using stack holds the prefixes that are
//! in scope, the innermost on top; a name stands for the first qualified name,
//! from the top of the stack down, that is defined.

use crate::gss::Stack;
use crate::table::{names_of, NameTable};
use vstd::prelude::*;
use vstd::string::StringExecFns;

verus! {

/// The qualified name that `s` stands for among the lowest `n` prefixes of
/// `usings`: the first defined one, from prefix `n - 1` down.
pub open spec fn resolve_name(
    usings: Seq<Seq<char>>,
    s: Seq<char>,
    defined: spec_fn(Seq<char>) -> bool,
    n: nat,
) -> Option<Seq<char>>
    decreases n,
{
    if n == 0 || n > usings.len() {
        None
    } else if defined(usings[n - 1] + s) {
        Some(usings[n - 1] + s)
    } else {
        resolve_name(usings, s, defined, (n - 1) as nat)
    }
}

/// The prefixes that the using stack holds, the innermost last.
pub open spec fn prefixes(using_stack: Stack<String>) -> Seq<Seq<char>> {
    names_of(using_stack@)
}

/// The qualified name that `s` stands for under the prefixes of `usings`.
pub open spec fn resolved(usings: Seq<Seq<char>>, s: Seq<char>, defined: spec_fn(Seq<char>) -> bool) -> Option<
    Seq<char>,
> {
    resolve_name(usings, s, defined, usings.len())
}

/// What `resolve_name` finds is defined, and is `s` behind one of the prefixes.
pub proof fn lemma_resolve_name(
    usings: Seq<Seq<char>>,
    s: Seq<char>,
    defined: spec_fn(Seq<char>) -> bool,
    n: nat,
)
    requires
        n <= usings.len(),
    ensures
        match resolve_name(usings, s, defined, n) {
            Some(name) => defined(name) && exists|i: int|
                0 <= i < n && name == #[trigger] usings[i] + s,
            None => forall|i: int| 0 <= i < n ==> !defined(#[trigger] usings[i] + s),
        },
    decreases n,
{
    if n > 0 && !defined(usings[n - 1] + s) {
        lemma_resolve_name(usings, s, defined, (n - 1) as nat);
    }
}

/// The qualified name under which `table` has an entry for `s`.
pub fn find_name<V>(s: &str, table: &NameTable<V>, using_stack: &Stack<String>) -> (r: Option<
    String,
>)
    ensures
        match r {
            Some(name) => resolved(prefixes(*using_stack), s@, |k: Seq<char>| table.has(k)) == Some(name@),
            None => resolved(prefixes(*using_stack), s@, |k: Seq<char>| table.has(k)) is None,
        },
{
    let ghost defined = |k: Seq<char>| table.has(k);
    let ghost usings = names_of(using_stack@);
    let mut it = using_stack.iter();
    loop
        invariant
            it@ == using_stack@.take(it@.len() as int),
            it@.len() <= using_stack@.len(),
            usings == names_of(using_stack@),
            defined == (|k: Seq<char>| table.has(k)),
            resolve_name(usings, s@, defined, using_stack@.len()) == resolve_name(
                usings,
                s@,
                defined,
                it@.len(),
            ),
        decreases it@.len(),
    {
        let ghost n = it@.len();
        match it.next() {
            None => {
                return None;
            },
            Some(using) => {
                assert(using@ == usings[n - 1]) by {
                    assert(using == using_stack@.take(n as int).last());
                }
                let mut name = using;
                name.append(s);
                assert(it@ =~= using_stack@.take(it@.len() as int));
                if table.contains_key(&name) {
                    return Some(name);
                }
            },
        }
    }
}

} // verus!
