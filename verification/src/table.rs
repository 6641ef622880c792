//! Tables keyed by name. A table keeps its entries in the order in which the
//! names were first inserted, so walking one is deterministic.

use vstd::prelude::*;

verus! {

/// The first position at or after `from` at which `keys` holds `name`.
pub open spec fn first_at(keys: Seq<Seq<char>>, name: Seq<char>, from: int) -> Option<int>
    decreases keys.len() - from,
{
    if from < 0 || from >= keys.len() {
        None
    } else if keys[from] == name {
        Some(from)
    } else {
        first_at(keys, name, from + 1)
    }
}

/// What `first_at` finds lies in range, holds the name, and nothing before it does.
pub proof fn lemma_first_at(keys: Seq<Seq<char>>, name: Seq<char>, from: int)
    requires
        0 <= from,
    ensures
        match first_at(keys, name, from) {
            Some(i) => from <= i < keys.len() && keys[i] == name && forall|k: int|
                from <= k < i ==> keys[k] != name,
            None => forall|k: int| from <= k < keys.len() ==> keys[k] != name,
        },
    decreases keys.len() - from,
{
    if from < keys.len() && keys[from] != name {
        lemma_first_at(keys, name, from + 1);
    }
}

/// Appending a key does not change what is found among the earlier ones.
pub proof fn lemma_first_at_push(keys: Seq<Seq<char>>, extra: Seq<char>, name: Seq<char>, from: int)
    requires
        0 <= from,
    ensures
        first_at(keys.push(extra), name, from) == match first_at(keys, name, from) {
            Some(i) => Some(i),
            None => if extra == name && from <= keys.len() {
                Some(keys.len() as int)
            } else {
                None
            },
        },
    decreases keys.len() - from,
{
    if from < keys.len() {
        if keys[from] != name {
            lemma_first_at_push(keys, extra, name, from + 1);
        }
    } else if from == keys.len() {
        assert(first_at(keys.push(extra), name, from + 1) is None);
    }
}

/// A set of names, each held once, in the order of insertion.
pub struct NameSet {
    pub names: Vec<String>,
}

/// The names of a sequence of strings.
pub open spec fn names_of(names: Seq<String>) -> Seq<Seq<char>> {
    Seq::new(names.len(), |i: int| names[i]@)
}

impl NameSet {
    /// The names held, in the order of insertion.
    pub open spec fn seq(&self) -> Seq<Seq<char>> {
        names_of(self.names@)
    }

    #[verifier::inline]
    pub open spec fn contains_name(&self, name: Seq<char>) -> bool {
        self.seq().contains(name)
    }

    /// No name is held twice.
    pub open spec fn wf(&self) -> bool {
        self.seq().no_duplicates()
    }

    pub fn new() -> (s: NameSet)
        ensures
            s.seq() == Seq::<Seq<char>>::empty(),
            s.wf(),
    {
        let s = NameSet { names: Vec::new() };
        assert(s.seq() =~= Seq::<Seq<char>>::empty());
        s
    }

    pub fn len(&self) -> (n: usize)
        ensures
            n == self.seq().len(),
    {
        self.names.len()
    }

    pub fn contains(&self, name: &String) -> (found: bool)
        ensures
            found == self.contains_name(name@),
    {
        let mut i: usize = 0;
        while i < self.names.len()
            invariant
                i <= self.names.len(),
                forall|k: int| 0 <= k < i ==> self.seq()[k] != name@,
            decreases self.names.len() - i,
        {
            if self.names[i] == *name {
                assert(self.seq()[i as int] == name@);
                return true;
            }
            i += 1;
        }
        false
    }

    /// Adds `name` unless it is held already; returns whether it was added.
    pub fn insert(&mut self, name: String) -> (added: bool)
        ensures
            added == !old(self).contains_name(name@),
            final(self).seq() == if added {
                old(self).seq().push(name@)
            } else {
                old(self).seq()
            },
            old(self).wf() ==> final(self).wf(),
    {
        if self.contains(&name) {
            false
        } else {
            self.names.push(name);
            assert(self.seq() =~= old(self).seq().push(name@));
            true
        }
    }
}

impl Clone for NameSet {
    fn clone(&self) -> (s: NameSet)
        ensures
            s.seq() == self.seq(),
    {
        let mut names: Vec<String> = Vec::new();
        let mut i: usize = 0;
        while i < self.names.len()
            invariant
                i <= self.names.len(),
                names@.len() == i,
                forall|k: int| 0 <= k < i ==> names@[k]@ == self.names@[k]@,
            decreases self.names.len() - i,
        {
            let name = self.names[i].clone();
            names.push(name);
            i += 1;
        }
        assert(names_of(names@) =~= self.seq());
        NameSet { names }
    }
}

/// A table from names to values.
pub struct NameTable<V> {
    pub entries: Vec<(String, V)>,
}

impl<V> NameTable<V> {
    /// The names of the entries, in the order of insertion.
    pub open spec fn keys(&self) -> Seq<Seq<char>> {
        Seq::new(self.entries@.len(), |i: int| self.entries@[i].0@)
    }

    /// Where `name` stands in the table, if it does.
    pub open spec fn position(&self, name: Seq<char>) -> Option<int> {
        first_at(self.keys(), name, 0)
    }

    pub open spec fn has(&self, name: Seq<char>) -> bool {
        self.position(name) is Some
    }

    /// The value stored under `name`.
    pub open spec fn value(&self, name: Seq<char>) -> V
        recommends
            self.has(name),
    {
        self.entries@[self.position(name)->0].1
    }

    /// No name has two entries.
    pub open spec fn wf(&self) -> bool {
        self.keys().no_duplicates()
    }

    pub fn new() -> (t: NameTable<V>)
        ensures
            t.entries@.len() == 0,
            t.wf(),
            forall|name: Seq<char>| !t.has(name),
    {
        NameTable { entries: Vec::new() }
    }

    pub fn len(&self) -> (n: usize)
        ensures
            n == self.entries@.len(),
    {
        self.entries.len()
    }

    /// The position of `name`, if the table has it.
    pub fn find(&self, name: &String) -> (r: Option<usize>)
        ensures
            match r {
                Some(i) => self.position(name@) == Some(i as int) && i < self.entries@.len(),
                None => self.position(name@) is None,
            },
    {
        let mut i: usize = 0;
        while i < self.entries.len()
            invariant
                i <= self.entries.len(),
                first_at(self.keys(), name@, 0) == first_at(self.keys(), name@, i as int),
            decreases self.entries.len() - i,
        {
            if self.entries[i].0 == *name {
                return Some(i);
            }
            i += 1;
        }
        None
    }

    /// Whether the table has an entry for `name`.
    pub fn contains_key(&self, name: &String) -> (found: bool)
        ensures
            found == self.has(name@),
    {
        self.find(name).is_some()
    }

    /// The value stored under `name`.
    pub fn get(&self, name: &String) -> (r: Option<&V>)
        ensures
            match r {
                Some(v) => self.has(name@) && *v == self.value(name@),
                None => !self.has(name@),
            },
    {
        match self.find(name) {
            Some(i) => Some(&self.entries[i].1),
            None => None,
        }
    }

    /// Stores `value` under `name`: in place of the value that the name had, or as a new last entry.
    pub fn insert(&mut self, name: String, value: V)
        ensures
            final(self).entries@ == match old(self).position(name@) {
                Some(i) => old(self).entries@.update(i, (name, value)),
                None => old(self).entries@.push((name, value)),
            },
            final(self).has(name@),
            final(self).value(name@) == value,
            forall|other: Seq<char>|
                other != name@ ==> final(self).has(other) == old(self).has(other) && (old(
                    self,
                ).has(other) ==> final(self).value(other) == old(self).value(other)),
            old(self).wf() ==> final(self).wf(),
    {
        proof {
            lemma_first_at(self.keys(), name@, 0);
        }
        match self.find(&name) {
            Some(i) => {
                self.entries[i] = (name, value);
                assert(self.keys() =~= old(self).keys());
                assert forall|other: Seq<char>| other != name@ && old(self).has(other) implies self.value(
                    other,
                ) == old(self).value(other) by {
                    lemma_first_at(old(self).keys(), other, 0);
                }
            },
            None => {
                self.entries.push((name, value));
                assert(self.keys() =~= old(self).keys().push(name@));
                assert forall|other: Seq<char>|
                    first_at(self.keys(), other, 0) == match first_at(old(self).keys(), other, 0) {
                        Some(i) => Some(i),
                        None => if name@ == other {
                            Some(old(self).keys().len() as int)
                        } else {
                            None
                        },
                    } by {
                    lemma_first_at_push(old(self).keys(), name@, other, 0);
                }
                assert forall|other: Seq<char>| other != name@ && old(self).has(other) implies self.value(
                    other,
                ) == old(self).value(other) by {
                    lemma_first_at(old(self).keys(), other, 0);
                }
                assert forall|a: int, b: int|
                    old(self).wf() && 0 <= a < self.keys().len() && 0 <= b < self.keys().len() && a
                        != b implies self.keys()[a] != self.keys()[b] by {
                    if a < old(self).keys().len() && b < old(self).keys().len() {
                    } else if a < old(self).keys().len() {
                        assert(old(self).keys()[a] != name@);
                    } else {
                        assert(old(self).keys()[b] != name@);
                    }
                }
            },
        }
    }
}


/// The names of the entries of a table that is given by its entries.
pub open spec fn keys_of<W>(entries: Seq<(Seq<char>, W)>) -> Seq<Seq<char>> {
    Seq::new(entries.len(), |i: int| entries[i].0)
}

/// Where `name` stands among the entries, if it does.
pub open spec fn position_in<W>(entries: Seq<(Seq<char>, W)>, name: Seq<char>) -> Option<int> {
    first_at(keys_of(entries), name, 0)
}

/// Whether the entries hold `name`.
pub open spec fn held<W>(entries: Seq<(Seq<char>, W)>, name: Seq<char>) -> bool {
    position_in(entries, name) is Some
}

/// The value that the entries hold under `name`.
pub open spec fn value_in<W>(entries: Seq<(Seq<char>, W)>, name: Seq<char>) -> W
    recommends
        held(entries, name),
{
    entries[position_in(entries, name)->0].1
}

/// The entries after `value` was stored under `name`: in place of the value
/// that the name had, or as a new last entry.
pub open spec fn stored<W>(entries: Seq<(Seq<char>, W)>, name: Seq<char>, value: W) -> Seq<
    (Seq<char>, W),
> {
    match position_in(entries, name) {
        Some(i) => entries.update(i, (name, value)),
        None => entries.push((name, value)),
    }
}

/// Storing under `name` makes `name` held and leaves every other name held or
/// not held as it was.
pub proof fn lemma_stored_held<W>(
    entries: Seq<(Seq<char>, W)>,
    name: Seq<char>,
    value: W,
    other: Seq<char>,
)
    ensures
        held(stored(entries, name, value), other) == (other == name || held(entries, other)),
{
    lemma_first_at(keys_of(entries), name, 0);
    match position_in(entries, name) {
        Some(i) => {
            assert(keys_of(entries.update(i, (name, value))) =~= keys_of(entries));
        },
        None => {
            assert(keys_of(entries.push((name, value))) =~= keys_of(entries).push(name));
            lemma_first_at_push(keys_of(entries), name, other, 0);
        },
    }
}

impl<V> NameTable<V> {
    /// The entries of the table with each value seen through `f`.
    pub open spec fn mapped<W>(&self, f: spec_fn(V) -> W) -> Seq<(Seq<char>, W)> {
        Seq::new(self.entries@.len(), |i: int| (self.entries@[i].0@, f(self.entries@[i].1)))
    }

    /// A table and its entries seen through `f` hold the same names at the same places.
    pub proof fn lemma_mapped<W>(&self, f: spec_fn(V) -> W)
        ensures
            keys_of(self.mapped(f)) == self.keys(),
            forall|name: Seq<char>| position_in(self.mapped(f), name) == self.position(name),
            forall|name: Seq<char>| held(self.mapped(f), name) == self.has(name),
            forall|name: Seq<char>|
                self.has(name) ==> value_in(self.mapped(f), name) == f(self.value(name)),
    {
        assert(keys_of(self.mapped(f)) =~= self.keys());
        assert forall|name: Seq<char>| self.has(name) implies value_in(self.mapped(f), name) == f(
            self.value(name),
        ) by {
            lemma_first_at(self.keys(), name, 0);
        }
    }

    /// What an insertion does to the entries seen through `f`.
    pub proof fn lemma_insert_mapped<W>(
        &self,
        after: NameTable<V>,
        name: String,
        value: V,
        f: spec_fn(V) -> W,
    )
        requires
            after.entries@ == match self.position(name@) {
                Some(i) => self.entries@.update(i, (name, value)),
                None => self.entries@.push((name, value)),
            },
        ensures
            after.mapped(f) == stored(self.mapped(f), name@, f(value)),
    {
        self.lemma_mapped(f);
        lemma_first_at(self.keys(), name@, 0);
        assert(after.mapped(f) =~= stored(self.mapped(f), name@, f(value)));
    }
}

} // verus!
