//! The layout of structs: where each member lies, and how large a struct is.

use crate::ast::{LexType, Span, StructDef, StructMember};
use crate::error::{fail, fail_plain, failure, nowhere, plain, CompileError, ErrorKind, Failure};
use crate::render::{names_text, render_usings};
use crate::gss::Stack;
use crate::module::{view_declarations, Declared};
use crate::scope::{prefixes, resolved};
use crate::sizes::{def_view, member_of, view_definitions, DefView, StructDefinition};
use crate::table::{held, lemma_stored_held, stored, value_in, NameSet, NameTable};
use crate::type_parse::{found_text, name_or_none, parsed_type, unknown_in};
use crate::types::{Type, TypeView};
use vstd::prelude::*;
use vstd::string::StringExecFns;

verus! {

/// The state of the resolution while the members of one struct are laid out.
pub struct Layout {
    /// The layouts found so far.
    pub defs: Seq<(Seq<char>, DefView)>,
    /// The structs whose resolution has begun.
    pub seen: Seq<Seq<char>>,
    /// The members laid out so far.
    pub members: Seq<(Seq<char>, (nat, TypeView))>,
    /// The offset of the next member.
    pub offset: nat,
}

/// A resolution that failed: the error, the layouts found until then, and the
/// structs whose resolution had begun by then.
pub struct Stuck {
    /// The error.
    pub failure: Failure,
    /// The layouts found before the error.
    pub defs: Seq<(Seq<char>, DefView)>,
    /// The structs whose resolution had begun before the error.
    pub seen: Seq<Seq<char>>,
}

/// The resolution that failed in `state` with an error of the kind about
/// `subject`.
pub open spec fn stuck(
    state: Layout,
    kind: ErrorKind,
    subject: Seq<char>,
    required: Seq<char>,
    found: Seq<char>,
) -> Stuck {
    Stuck {
        failure: failure(nowhere(), kind, subject, required, found),
        defs: state.defs,
        seen: state.seen,
    }
}

/// The state after a member of the name, the type and the number of words was placed.
pub open spec fn placed(state: Layout, name: Seq<char>, t: TypeView, words: nat) -> Result<
    Layout,
    Stuck,
> {
    if state.offset + words > usize::MAX {
        Err(stuck(state, ErrorKind::SizeOverflow, name, ""@, ""@))
    } else {
        Ok(
            Layout {
                members: stored(state.members, name, (state.offset, t)),
                offset: state.offset + words,
                ..state
            },
        )
    }
}

/// The state after the member was laid out. A `u16` and a pointer take one
/// word for each element. A struct takes its size for each element; its
/// layout is looked up or, where it is not known yet, resolved first. A
/// function or a generic type cannot be a member.
pub open spec fn member_layout(
    owner: Seq<char>,
    member: StructMember,
    usings: Seq<Seq<char>>,
    decls: Seq<(Seq<char>, Declared)>,
    state: Layout,
    fuel: nat,
) -> Result<Layout, Stuck>
    decreases fuel, 1nat,
{
    if member.size < 0 {
        Err(stuck(state, ErrorKind::InvalidSize, member.name.name@, ""@, ""@))
    } else {
        match member.var_type {
            LexType::Base(identifier) => if identifier.name@ == "u16"@ {
                placed(state, member.name.name@, TypeView::U16, member.size as nat)
            } else {
                match resolved(usings, identifier.name@, |k: Seq<char>| held(decls, k)) {
                    None => Err(
                        stuck(
                            state,
                            ErrorKind::UnknownMemberType,
                            identifier.name@,
                            owner,
                            names_text(usings),
                        ),
                    ),
                    Some(qualified) => {
                        let sized = if held(state.defs, qualified) {
                            Ok((state.defs, state.seen, value_in(state.defs, qualified).size))
                        } else {
                            resolve_struct(qualified, state.defs, decls, state.seen, fuel)
                        };
                        match sized {
                            Err(e) => Err(e),
                            Ok((defs, seen, size)) => match parsed_type(
                                member.var_type,
                                |k: Seq<char>| held(defs, k),
                                usings,
                            ) {
                                None => Err(
                                    stuck(
                                        Layout { defs, seen, ..state },
                                        ErrorKind::UnknownType,
                                        member.name.name@,
                                        name_or_none(
                                            unknown_in(
                                                member.var_type,
                                                |k: Seq<char>| held(defs, k),
                                                usings,
                                            ),
                                        ),
                                        names_text(usings),
                                    ),
                                ),
                                Some(t) => placed(
                                    Layout { defs, seen, ..state },
                                    member.name.name@,
                                    t,
                                    size * (member.size as nat),
                                ),
                            },
                        }
                    },
                }
            },
            LexType::Ptr(_) => match parsed_type(
                member.var_type,
                |k: Seq<char>| held(decls, k),
                usings,
            ) {
                None => Err(
                    stuck(
                        state,
                        ErrorKind::UnknownType,
                        member.name.name@,
                        name_or_none(
                            unknown_in(member.var_type, |k: Seq<char>| held(decls, k), usings),
                        ),
                        names_text(usings),
                    ),
                ),
                Some(t) => placed(state, member.name.name@, t, member.size as nat),
            },
            LexType::Func(_) => Err(
                stuck(state, ErrorKind::FunctionMember, member.name.name@, ""@, ""@),
            ),
            LexType::Gen(_) => Err(
                stuck(state, ErrorKind::GenericMember, member.name.name@, ""@, ""@),
            ),
        }
    }
}

/// The state after the first `n` members were laid out in order.
pub open spec fn members_layout(
    owner: Seq<char>,
    members: Seq<StructMember>,
    usings: Seq<Seq<char>>,
    decls: Seq<(Seq<char>, Declared)>,
    state: Layout,
    fuel: nat,
    n: nat,
) -> Result<Layout, Stuck>
    decreases fuel, n + 2,
{
    if n == 0 || n > members.len() {
        Ok(state)
    } else {
        match members_layout(owner, members, usings, decls, state, fuel, (n - 1) as nat) {
            Err(e) => Err(e),
            Ok(before) => member_layout(owner, members[n - 1], usings, decls, before, fuel),
        }
    }
}

/// The resolution of the struct `name`: the layouts afterwards, the structs
/// whose resolution has begun, and the size of the struct. The members lie
/// one behind the other from offset zero, and the size is the offset behind
/// the last. A struct whose resolution has begun and not ended holds itself
/// without a pointer in between: that is an error. Any other struct counts
/// as begun from then on, whether it is declared or not. `fuel` bounds how
/// deep structs may lie in one another.
pub open spec fn resolve_struct(
    name: Seq<char>,
    defs: Seq<(Seq<char>, DefView)>,
    decls: Seq<(Seq<char>, Declared)>,
    seen: Seq<Seq<char>>,
    fuel: nat,
) -> Result<(Seq<(Seq<char>, DefView)>, Seq<Seq<char>>, nat), Stuck>
    decreases fuel, 0nat,
{
    let begun = Layout { defs, seen: seen.push(name), members: Seq::empty(), offset: 0 };
    if seen.contains(name) {
        Err(stuck(Layout { seen, ..begun }, ErrorKind::RecursiveStruct, name, ""@, ""@))
    } else if !held(decls, name) {
        Err(stuck(begun, ErrorKind::UnknownStruct, name, ""@, ""@))
    } else if fuel == 0 {
        Err(stuck(begun, ErrorKind::RecursiveStruct, name, ""@, ""@))
    } else {
        let declared = value_in(decls, name);
        match members_layout(
            name,
            declared.def.members@,
            declared.usings,
            decls,
            begun,
            (fuel - 1) as nat,
            declared.def.members@.len(),
        ) {
            Err(e) => Err(e),
            Ok(layout) => Ok(
                (
                    stored(layout.defs, name, DefView { members: layout.members, size: layout.offset }),
                    layout.seen,
                    layout.offset,
                ),
            ),
        }
    }
}

/// Once some members cannot be laid out, more of them cannot either.
pub proof fn lemma_members_layout_fails(
    owner: Seq<char>,
    members: Seq<StructMember>,
    usings: Seq<Seq<char>>,
    decls: Seq<(Seq<char>, Declared)>,
    state: Layout,
    fuel: nat,
    n: nat,
    k: nat,
)
    requires
        members_layout(owner, members, usings, decls, state, fuel, n) is Err,
        n <= k <= members.len(),
    ensures
        members_layout(owner, members, usings, decls, state, fuel, k) == members_layout(
            owner,
            members,
            usings,
            decls,
            state,
            fuel,
            n,
        ),
    decreases k,
{
    if n < k {
        lemma_members_layout_fails(owner, members, usings, decls, state, fuel, n, (k - 1) as nat);
    }
}

/// Whether the resolution of the struct `name` has begun and has given it no
/// layout.
pub open spec fn pending(name: Seq<char>, defs: Seq<(Seq<char>, DefView)>, seen: Seq<Seq<char>>) -> bool {
    seen.contains(name) && !held(defs, name)
}

/// Whether `name` is pending in the state in which laying out members ended.
pub open spec fn pending_after(name: Seq<char>, r: Result<Layout, Stuck>) -> bool {
    match r {
        Ok(layout) => pending(name, layout.defs, layout.seen),
        Err(e) => pending(name, e.defs, e.seen),
    }
}

/// Laying out one member gives no layout to a struct that is pending.
pub proof fn lemma_member_keeps_pending(
    pended: Seq<char>,
    owner: Seq<char>,
    member: StructMember,
    usings: Seq<Seq<char>>,
    decls: Seq<(Seq<char>, Declared)>,
    state: Layout,
    fuel: nat,
)
    requires
        pending(pended, state.defs, state.seen),
    ensures
        pending_after(pended, member_layout(owner, member, usings, decls, state, fuel)),
    decreases fuel, 1nat,
{
    if member.size >= 0 {
        if let LexType::Base(identifier) = member.var_type {
            if identifier.name@ != "u16"@ {
                if let Some(qualified) = resolved(
                    usings,
                    identifier.name@,
                    |k: Seq<char>| held(decls, k),
                ) {
                    if !held(state.defs, qualified) {
                        lemma_resolve_keeps_pending(
                            pended,
                            qualified,
                            state.defs,
                            decls,
                            state.seen,
                            fuel,
                        );
                    }
                }
            }
        }
    }
}

/// Laying out members gives no layout to a struct that is pending.
pub proof fn lemma_members_keep_pending(
    pended: Seq<char>,
    owner: Seq<char>,
    members: Seq<StructMember>,
    usings: Seq<Seq<char>>,
    decls: Seq<(Seq<char>, Declared)>,
    state: Layout,
    fuel: nat,
    n: nat,
)
    requires
        pending(pended, state.defs, state.seen),
    ensures
        pending_after(pended, members_layout(owner, members, usings, decls, state, fuel, n)),
    decreases fuel, n + 2,
{
    if n != 0 && n <= members.len() {
        lemma_members_keep_pending(
            pended,
            owner,
            members,
            usings,
            decls,
            state,
            fuel,
            (n - 1) as nat,
        );
        if let Ok(before) = members_layout(owner, members, usings, decls, state, fuel, (n - 1) as nat) {
            lemma_member_keeps_pending(pended, owner, members[n - 1], usings, decls, before, fuel);
        }
    }
}

/// Resolving a struct gives no layout to another struct that is pending,
/// whether the resolution succeeds or fails.
pub proof fn lemma_resolve_keeps_pending(
    pended: Seq<char>,
    name: Seq<char>,
    defs: Seq<(Seq<char>, DefView)>,
    decls: Seq<(Seq<char>, Declared)>,
    seen: Seq<Seq<char>>,
    fuel: nat,
)
    requires
        pending(pended, defs, seen),
    ensures
        match resolve_struct(name, defs, decls, seen, fuel) {
            Ok((after, begun, _)) => pending(pended, after, begun),
            Err(e) => pending(pended, e.defs, e.seen),
        },
    decreases fuel, 0nat,
{
    let start = Layout { defs, seen: seen.push(name), members: Seq::empty(), offset: 0 };
    let at = choose|i: int| 0 <= i < seen.len() && seen[i] == pended;
    assert(start.seen[at] == pended);
    if !seen.contains(name) && held(decls, name) && fuel != 0 {
        let declared = value_in(decls, name);
        lemma_members_keep_pending(
            pended,
            name,
            declared.def.members@,
            declared.usings,
            decls,
            start,
            (fuel - 1) as nat,
            declared.def.members@.len(),
        );
        if let Ok(layout) = members_layout(
            name,
            declared.def.members@,
            declared.usings,
            decls,
            start,
            (fuel - 1) as nat,
            declared.def.members@.len(),
        ) {
            lemma_stored_held(
                layout.defs,
                name,
                DefView { members: layout.members, size: layout.offset },
                pended,
            );
        }
    }
}

/// A struct whose resolution fails has no layout afterwards, unless it had
/// one before.
pub proof fn failed_resolution_gives_no_layout(
    name: Seq<char>,
    defs: Seq<(Seq<char>, DefView)>,
    decls: Seq<(Seq<char>, Declared)>,
    seen: Seq<Seq<char>>,
    fuel: nat,
)
    requires
        !held(defs, name),
    ensures
        resolve_struct(name, defs, decls, seen, fuel) matches Err(e) ==> !held(e.defs, name),
{
    if !seen.contains(name) && held(decls, name) && fuel != 0 {
        let declared = value_in(decls, name);
        let start = Layout { defs, seen: seen.push(name), members: Seq::empty(), offset: 0 };
        assert(start.seen[seen.len() as int] == name);
        lemma_members_keep_pending(
            name,
            name,
            declared.def.members@,
            declared.usings,
            decls,
            start,
            (fuel - 1) as nat,
            declared.def.members@.len(),
        );
    }
}

/// Places a member.
fn place(members: &mut NameTable<(usize, Type)>, offset: &mut usize, name: String, t: Type, words: usize) -> (r:
    Result<(), CompileError>)
    ensures
        match r {
            Ok(()) => {
                &&& *old(offset) + words <= usize::MAX
                &&& *final(offset) == *old(offset) + words
                &&& final(members).mapped(|entry: (usize, Type)| member_of(entry)) == stored(
                    old(members).mapped(|entry: (usize, Type)| member_of(entry)),
                    name@,
                    (*old(offset) as nat, t@),
                )
            },
            Err(e) => {
                &&& *old(offset) + words > usize::MAX
                &&& e@ == plain(nowhere(), ErrorKind::SizeOverflow, name@)
                &&& *final(offset) == *old(offset)
                &&& *final(members) == *old(members)
            },
        },
{
    if words > usize::MAX - *offset {
        return fail_plain(&Span { start: 0, end: 0 }, ErrorKind::SizeOverflow, name.as_str());
    }
    let ghost before = *members;
    let entry = (*offset, t);
    members.insert(name, entry);
    proof {
        before.lemma_insert_mapped(*members, name, entry, |entry: (usize, Type)| member_of(entry));
    }
    *offset = *offset + words;
    Ok(())
}

impl Type {
    /// Resolves the layout of the struct `s` and of the structs that it
    /// holds, records the layouts in `struct_defs`, and returns the size of
    /// `s` in words. `seen` holds the structs whose resolution has begun, and
    /// `depth` bounds how deep structs may lie in one another.
    pub fn resolve_struct_size(
        s: &str,
        struct_defs: &mut NameTable<StructDefinition>,
        structs: &NameTable<(Stack<String>, &StructDef)>,
        seen: &mut NameSet,
        depth: usize,
    ) -> (r: Result<usize, CompileError>)
        ensures
            match r {
                Ok(size) => resolve_struct(
                    s@,
                    view_definitions(*old(struct_defs)),
                    view_declarations(*structs),
                    old(seen).seq(),
                    depth as nat,
                ) == Ok::<(Seq<(Seq<char>, DefView)>, Seq<Seq<char>>, nat), Stuck>(
                    (view_definitions(*final(struct_defs)), final(seen).seq(), size as nat),
                ),
                Err(e) => resolve_struct(
                    s@,
                    view_definitions(*old(struct_defs)),
                    view_declarations(*structs),
                    old(seen).seq(),
                    depth as nat,
                ) == Err::<(Seq<(Seq<char>, DefView)>, Seq<Seq<char>>, nat), Stuck>(
                    (Stuck {
                        failure: e@,
                        defs: view_definitions(*final(struct_defs)),
                        seen: final(seen).seq(),
                    }),
                ),
            },
            r is Err && !old(struct_defs).has(s@) ==> !final(struct_defs).has(s@),
        decreases depth,
    {
        let ghost decls = view_declarations(*structs);
        let ghost as_member = |entry: (usize, Type)| member_of(entry);
        let ghost as_def = |d: StructDefinition| def_view(d);
        proof {
            struct_defs.lemma_mapped(as_def);
            if !struct_defs.has(s@) {
                failed_resolution_gives_no_layout(
                    s@,
                    view_definitions(*struct_defs),
                    decls,
                    seen.seq(),
                    depth as nat,
                );
            }
        }
        let name = String::from_str(s);
        let origin = Span { start: 0, end: 0 };
        if seen.contains(&name) {
            proof {
                struct_defs.lemma_mapped(as_def);
            }
            return fail_plain(&origin, ErrorKind::RecursiveStruct, s);
        }
        let ghost start = Layout {
            defs: view_definitions(*struct_defs),
            seen: seen.seq().push(name@),
            members: Seq::empty(),
            offset: 0,
        };
        seen.insert(name.clone());
        proof {
            structs.lemma_mapped(|entry: (Stack<String>, &StructDef)| crate::module::declared_of(entry));
        }
        let (usings, subdef) = match structs.get(&name) {
            Some(entry) => (&entry.0, entry.1),
            None => {
                proof {
                    struct_defs.lemma_mapped(as_def);
                }
                return fail_plain(&origin, ErrorKind::UnknownStruct, s);
            },
        };
        if depth == 0 {
            proof {
                struct_defs.lemma_mapped(as_def);
            }
            return fail_plain(&origin, ErrorKind::RecursiveStruct, s);
        }
        let mut members: NameTable<(usize, Type)> = NameTable::new();
        let mut offset: usize = 0;
        assert(members.mapped(as_member) =~= Seq::empty());
        let mut i: usize = 0;
        while i < subdef.members.len()
            invariant
                i <= subdef.members@.len(),
                depth > 0,
                name@ == s@,
                !old(seen).seq().contains(s@),
                held(decls, s@),
                value_in(decls, s@) == (Declared { usings: prefixes(*usings), def: *subdef }),
                start == (Layout {
                    defs: view_definitions(*old(struct_defs)),
                    seen: old(seen).seq().push(s@),
                    members: Seq::empty(),
                    offset: 0,
                }),
                decls == view_declarations(*structs),
                as_member == (|entry: (usize, Type)| member_of(entry)),
                as_def == (|d: StructDefinition| def_view(d)),
                origin == nowhere(),
                !old(struct_defs).has(s@) ==> (resolve_struct(
                    s@,
                    view_definitions(*old(struct_defs)),
                    decls,
                    old(seen).seq(),
                    depth as nat,
                ) matches Err(e) ==> !held(e.defs, s@)),
                members_layout(
                    s@,
                    subdef.members@,
                    prefixes(*usings),
                    decls,
                    start,
                    (depth - 1) as nat,
                    i as nat,
                ) == Ok::<Layout, Stuck>(
                    Layout {
                        defs: struct_defs.mapped(as_def),
                        seen: seen.seq(),
                        members: members.mapped(as_member),
                        offset: offset as nat,
                    },
                ),
            decreases subdef.members.len() - i,
        {
            let member = &subdef.members[i];
            let ghost state = Layout {
                defs: struct_defs.mapped(as_def),
                seen: seen.seq(),
                members: members.mapped(as_member),
                offset: offset as nat,
            };
            proof {
                structs.lemma_mapped(
                    |entry: (Stack<String>, &StructDef)| crate::module::declared_of(entry),
                );
                struct_defs.lemma_mapped(as_def);
                assert((|k: Seq<char>| structs.has(k)) =~= (|k: Seq<char>| held(decls, k)));
                if member_layout(s@, *member, prefixes(*usings), decls, state, (depth - 1) as nat) is Err {
                    lemma_members_layout_fails(
                        s@,
                        subdef.members@,
                        prefixes(*usings),
                        decls,
                        start,
                        (depth - 1) as nat,
                        (i + 1) as nat,
                        subdef.members@.len(),
                    );
                }
            }
            if member.size < 0 {
                proof {
                    struct_defs.lemma_mapped(as_def);
                }
                return fail_plain(&origin, ErrorKind::InvalidSize, member.name.name.as_str());
            }
            let count = member.size as usize;
            let member_name = member.name.name.clone();
            match &member.var_type {
                LexType::Base(identifier) => {
                    if identifier.name == String::from_str("u16") {
                        match place(&mut members, &mut offset, member_name, Type::U16, count) {
                            Ok(()) => {},
                            Err(e) => {
                                proof {
                                    struct_defs.lemma_mapped(as_def);
                                }
                                return Err(e);
                            },
                        }
                    } else {
                        let qualified = match Type::find_struct_def(
                            identifier.name.as_str(),
                            structs,
                            usings,
                        ) {
                            Some(qualified) => qualified,
                            None => {
                                proof {
                                    struct_defs.lemma_mapped(as_def);
                                }
                                return fail(
                                    &origin,
                                    ErrorKind::UnknownMemberType,
                                    identifier.name.as_str(),
                                    s,
                                    render_usings(usings).as_str(),
                                );
                            },
                        };
                        let known = match struct_defs.get(&qualified) {
                            Some(def) => Some(def.size),
                            None => None,
                        };
                        let size = match known {
                            Some(size) => size,
                            None => match Type::resolve_struct_size(
                                qualified.as_str(),
                                struct_defs,
                                structs,
                                seen,
                                depth - 1,
                            ) {
                                Ok(size) => size,
                                Err(e) => {
                                    proof {
                                        struct_defs.lemma_mapped(as_def);
                                    }
                                    return Err(e);
                                },
                            },
                        };
                        proof {
                            struct_defs.lemma_mapped(as_def);
                            assert((|k: Seq<char>| struct_defs.has(k)) =~= (|k: Seq<char>|
                                held(struct_defs.mapped(as_def), k)));
                        }
                        let member_type = match Type::parse(&member.var_type, struct_defs, usings) {
                            Ok(t) => t,
                            Err(_) => {
                                proof {
                                    struct_defs.lemma_mapped(as_def);
                                }
                                return fail(
                                    &origin,
                                    ErrorKind::UnknownType,
                                    member.name.name.as_str(),
                                    found_text(
                                        Type::unknown_name(&member.var_type, struct_defs, usings),
                                    ).as_str(),
                                    render_usings(usings).as_str(),
                                );
                            },
                        };
                        let words = match size.checked_mul(count) {
                            Some(words) => words,
                            None => {
                                proof {
                                    struct_defs.lemma_mapped(as_def);
                                }
                                return fail_plain(
                                    &origin,
                                    ErrorKind::SizeOverflow,
                                    member.name.name.as_str(),
                                );
                            },
                        };
                        match place(&mut members, &mut offset, member_name, member_type, words) {
                            Ok(()) => {},
                            Err(e) => {
                                proof {
                                    struct_defs.lemma_mapped(as_def);
                                }
                                return Err(e);
                            },
                        }
                    }
                },
                LexType::Ptr(_) => {
                    let member_type = match Type::parse(&member.var_type, structs, usings) {
                        Ok(t) => t,
                        Err(_) => {
                            proof {
                                struct_defs.lemma_mapped(as_def);
                            }
                            return fail(
                                &origin,
                                ErrorKind::UnknownType,
                                member.name.name.as_str(),
                                found_text(
                                    Type::unknown_name(&member.var_type, structs, usings),
                                ).as_str(),
                                render_usings(usings).as_str(),
                            );
                        },
                    };
                    match place(&mut members, &mut offset, member_name, member_type, count) {
                        Ok(()) => {},
                        Err(e) => {
                            proof {
                                struct_defs.lemma_mapped(as_def);
                            }
                            return Err(e);
                        },
                    }
                },
                LexType::Func(_) => {
                    proof {
                        struct_defs.lemma_mapped(as_def);
                    }
                    return fail_plain(&origin, ErrorKind::FunctionMember, member.name.name.as_str());
                },
                LexType::Gen(_) => {
                    proof {
                        struct_defs.lemma_mapped(as_def);
                    }
                    return fail_plain(&origin, ErrorKind::GenericMember, member.name.name.as_str());
                },
            }
            i += 1;
        }
        let ghost before = *struct_defs;
        let definition = StructDefinition { members, size: offset };
        struct_defs.insert(name, definition);
        proof {
            before.lemma_insert_mapped(*struct_defs, name, definition, as_def);
        }
        Ok(offset)
    }
}

} // verus!
