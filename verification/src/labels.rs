//! The names of the labels in the emitted assembly.

use crate::text::{decimal_digits, push_decimal};
use vstd::prelude::*;
use vstd::string::StringExecFns;

verus! {

/// The label made from `base` and the number `n`.
pub open spec fn numbered_label(base: Seq<char>, n: nat) -> Seq<char> {
    base + seq!['_'] + decimal_digits(n)
}

/// The base of a label made in the context `context` under `base`.
pub open spec fn context_base(base: Seq<char>, context: Seq<char>) -> Seq<char> {
    base + seq!['_'] + context
}

/// The label of the function of the name: `fn_` and the name.
pub open spec fn function_label_of(identifier: Seq<char>) -> Seq<char> {
    seq!['f', 'n', '_'] + identifier
}

/// The label of the storage of the global of the name: `variable_alloc_` and the name.
pub open spec fn global_label_of(identifier: Seq<char>) -> Seq<char> {
    seq!['v', 'a', 'r', 'i', 'a', 'b', 'l', 'e', '_', 'a', 'l', 'l', 'o', 'c', '_'] + identifier
}

/// The label of the constant of the name: `const_` and the name.
pub open spec fn const_label_of(identifier: Seq<char>) -> Seq<char> {
    seq!['c', 'o', 'n', 's', 't', '_'] + identifier
}

/// A label that no earlier call with this counter has returned: the base, an
/// underscore and the next number of the counter. `None`, and no change, once
/// the counter has run out.
pub fn generate_label(base_label: &str, counter: &mut usize) -> (r: Option<String>)
    ensures
        match r {
            Some(label) => {
                &&& *old(counter) < usize::MAX
                &&& *final(counter) == *old(counter) + 1
                &&& label@ == numbered_label(base_label@, *final(counter) as nat)
            },
            None => *old(counter) == usize::MAX && *final(counter) == *old(counter),
        },
{
    if *counter == usize::MAX {
        return None;
    }
    *counter = *counter + 1;
    let mut label = String::from_str(base_label);
    label.push('_');
    push_decimal(&mut label, *counter);
    Some(label)
}

/// A fresh label whose base is `base_label`, an underscore and `context`.
pub fn generate_label_with_context(base_label: &str, context: &str, counter: &mut usize) -> (r:
    Option<String>)
    ensures
        match r {
            Some(label) => {
                &&& *old(counter) < usize::MAX
                &&& *final(counter) == *old(counter) + 1
                &&& label@ == numbered_label(
                    context_base(base_label@, context@),
                    *final(counter) as nat,
                )
            },
            None => *old(counter) == usize::MAX && *final(counter) == *old(counter),
        },
{
    let mut base = String::from_str(base_label);
    base.push('_');
    base.append(context);
    generate_label(base.as_str(), counter)
}

/// The label of the function of the name.
pub fn function_label(identifier: &str) -> (label: String)
    ensures
        label@ == function_label_of(identifier@),
{
    let mut label = String::from_str("fn_");
    proof {
        reveal_strlit("fn_");
    }
    label.append(identifier);
    assert(label@ =~= function_label_of(identifier@));
    label
}

/// The label of the storage of the global variable of the name.
pub fn global_label(identifier: &str) -> (label: String)
    ensures
        label@ == global_label_of(identifier@),
{
    let mut label = String::from_str("variable_alloc_");
    proof {
        reveal_strlit("variable_alloc_");
    }
    label.append(identifier);
    assert(label@ =~= global_label_of(identifier@));
    label
}

/// The label of the constant of the name.
pub fn const_label(identifier: &str) -> (label: String)
    ensures
        label@ == const_label_of(identifier@),
{
    let mut label = String::from_str("const_");
    proof {
        reveal_strlit("const_");
    }
    label.append(identifier);
    assert(label@ =~= const_label_of(identifier@));
    label
}


/// Labels that are made from one base and different numbers are different:
/// a counter that only counts up never gives a label twice.
pub proof fn numbered_labels_differ(base: Seq<char>, n: nat, m: nat)
    requires
        n != m,
    ensures
        numbered_label(base, n) != numbered_label(base, m),
{
    crate::text::lemma_decimal_differs(n, m);
    let front = base + seq!['_'];
    if numbered_label(base, n) == numbered_label(base, m) {
        assert((front + decimal_digits(n)).skip(front.len() as int) =~= decimal_digits(n));
        assert((front + decimal_digits(m)).skip(front.len() as int) =~= decimal_digits(m));
    }
}

} // verus!
