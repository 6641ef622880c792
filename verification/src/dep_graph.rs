//! Which functions call which, and what can be reached from the roots.

use crate::table::{NameSet, NameTable};
use vstd::prelude::*;
use vstd::seq_lib::seq_to_set_is_finite;
use vstd::set_lib::lemma_len_subset;

verus! {

/// A graph of names with some of its nodes marked as roots.
pub struct DependencyGraph {
    pub roots: NameSet,
    pub edges: NameTable<NameSet>,
}

/// The targets of the first `n` entries of the edge table, one after the other.
pub open spec fn targets(edges: NameTable<NameSet>, n: nat) -> Seq<Seq<char>>
    decreases n,
{
    if n == 0 || n > edges.entries@.len() {
        Seq::empty()
    } else {
        targets(edges, (n - 1) as nat) + edges.entries@[n - 1].1.seq()
    }
}

proof fn lemma_targets_hold(edges: NameTable<NameSet>, n: nat, i: int, name: Seq<char>)
    requires
        0 <= i < n <= edges.entries@.len(),
        edges.entries@[i].1.contains_name(name),
    ensures
        targets(edges, n).contains(name),
    decreases n,
{
    let last = edges.entries@[n - 1].1.seq();
    if i == n - 1 {
        let k = choose|k: int| 0 <= k < last.len() && last[k] == name;
        assert((targets(edges, (n - 1) as nat) + last)[targets(edges, (n - 1) as nat).len() + k]
            == name);
    } else {
        lemma_targets_hold(edges, (n - 1) as nat, i, name);
        let before = targets(edges, (n - 1) as nat);
        let k = choose|k: int| 0 <= k < before.len() && before[k] == name;
        assert((before + last)[k] == name);
    }
}

impl DependencyGraph {
    /// Whether the graph has an edge from `from` to `to`.
    pub open spec fn has_edge(&self, from: Seq<char>, to: Seq<char>) -> bool {
        self.edges.has(from) && self.edges.value(from).contains_name(to)
    }

    /// Whether `path` starts at a root and follows edges of the graph.
    pub open spec fn is_path(&self, path: Seq<Seq<char>>) -> bool {
        &&& path.len() >= 1
        &&& self.roots.contains_name(path[0])
        &&& forall|i: int| 0 <= i < path.len() - 1 ==> self.has_edge(#[trigger] path[i], path[i + 1])
    }

    /// Whether `node` is a root or can be reached from one along edges.
    pub open spec fn reachable(&self, node: Seq<char>) -> bool {
        exists|path: Seq<Seq<char>>| #[trigger] self.is_path(path) && path.last() == node
    }

    /// Every node that is a root or the target of an edge.
    pub open spec fn universe(&self) -> Seq<Seq<char>> {
        self.roots.seq() + targets(self.edges, self.edges.entries@.len())
    }

    /// The graph without nodes.
    pub fn new() -> (g: DependencyGraph)
        ensures
            g.roots.seq().len() == 0,
            forall|from: Seq<char>, to: Seq<char>| !g.has_edge(from, to),
    {
        DependencyGraph { roots: NameSet::new(), edges: NameTable::new() }
    }

    /// Marks `node` as a root.
    pub fn add_root(&mut self, node: String)
        ensures
            final(self).edges == old(self).edges,
            forall|name: Seq<char>|
                final(self).roots.contains_name(name) == (name == node@ || old(
                    self,
                ).roots.contains_name(name)),
    {
        let ghost before = self.roots.seq();
        let added = self.roots.insert(node);
        assert forall|name: Seq<char>|
            self.roots.contains_name(name) == (name == node@ || before.contains(name)) by {
            if added {
                if before.contains(name) {
                    let k = choose|k: int| 0 <= k < before.len() && before[k] == name;
                    assert(before.push(node@)[k] == name);
                }
                if name == node@ {
                    assert(before.push(node@)[before.len() as int] == name);
                }
            }
        }
    }

    /// Records that `f` depends on `dependency`.
    pub fn add_dependency(&mut self, f: String, dependency: String)
        ensures
            final(self).roots == old(self).roots,
            forall|from: Seq<char>, to: Seq<char>|
                final(self).has_edge(from, to) == ((from == f@ && to == dependency@) || old(
                    self,
                ).has_edge(from, to)),
    {
        let ghost f_name = f@;
        let ghost d_name = dependency@;
        let ghost before = *self;
        let mut deps = match self.edges.get(&f) {
            Some(known) => known.clone(),
            None => NameSet::new(),
        };
        let ghost copied = deps.seq();
        let added = deps.insert(dependency);
        let ghost after = deps.seq();
        assert forall|to: Seq<char>| after.contains(to) == (to == d_name || copied.contains(to)) by {
            if added {
                if copied.contains(to) {
                    let k = choose|k: int| 0 <= k < copied.len() && copied[k] == to;
                    assert(copied.push(d_name)[k] == to);
                }
                if to == d_name {
                    assert(copied.push(d_name)[copied.len() as int] == to);
                }
            }
        }
        self.edges.insert(f, deps);
    }

    /// The nodes that are roots or can be reached from a root along edges.
    pub fn calculate_used(&self) -> (used: NameSet)
        ensures
            used.wf(),
            forall|node: Seq<char>| used.contains_name(node) == self.reachable(node),
    {
        let mut used = NameSet::new();
        let mut r: usize = 0;
        while r < self.roots.names.len()
            invariant
                r <= self.roots.names.len(),
                used.wf(),
                forall|k: int| 0 <= k < used.seq().len() ==> self.roots.contains_name(#[trigger] used.seq()[k]),
                forall|k: int| 0 <= k < r ==> used.contains_name(#[trigger] self.roots.seq()[k]),
            decreases self.roots.names.len() - r,
        {
            let ghost before = used.seq();
            let name = self.roots.names[r].clone();
            assert(name@ == self.roots.seq()[r as int]);
            let added = used.insert(name);
            proof {
                self.lemma_insert_keeps(before, used.seq(), name@, added);
            }
            r += 1;
        }
        proof {
            assert forall|k: int| 0 <= k < used.seq().len() implies self.reachable(
                #[trigger] used.seq()[k],
            ) by {
                let path = seq![used.seq()[k]];
                assert(self.is_path(path) && path.last() == used.seq()[k]);
            }
            self.lemma_bound(used.seq());
        }
        let mut head: usize = 0;
        while head < used.names.len()
            invariant
                head <= used.names.len(),
                used.wf(),
                used.seq().len() <= self.universe().to_set().len(),
                forall|k: int| 0 <= k < used.seq().len() ==> self.reachable(#[trigger] used.seq()[k]),
                forall|root: Seq<char>| self.roots.contains_name(root) ==> used.contains_name(root),
                forall|k: int, to: Seq<char>|
                    0 <= k < head && self.has_edge(#[trigger] used.seq()[k], to)
                        ==> #[trigger] used.contains_name(to),
            decreases self.universe().to_set().len() - head,
        {
            let node = used.names[head].clone();
            assert(node@ == used.seq()[head as int]);
            match self.edges.get(&node) {
                Some(deps) => {
                    let mut j: usize = 0;
                    while j < deps.names.len()
                        invariant
                            j <= deps.names.len(),
                            head < used.names.len(),
                            node@ == used.seq()[head as int],
                            self.edges.has(node@),
                            *deps == self.edges.value(node@),
                            used.wf(),
                            used.seq().len() <= self.universe().to_set().len(),
                            forall|k: int|
                                0 <= k < used.seq().len() ==> self.reachable(#[trigger] used.seq()[k]),
                            forall|root: Seq<char>|
                                self.roots.contains_name(root) ==> used.contains_name(root),
                            forall|k: int, to: Seq<char>|
                                0 <= k < head && self.has_edge(#[trigger] used.seq()[k], to)
                                    ==> #[trigger] used.contains_name(to),
                            forall|k: int| 0 <= k < j ==> used.contains_name(#[trigger] deps.seq()[k]),
                        decreases deps.names.len() - j,
                    {
                        let ghost before = used.seq();
                        let dep = deps.names[j].clone();
                        assert(dep@ == deps.seq()[j as int]);
                        assert(self.has_edge(node@, dep@));
                        let added = used.insert(dep);
                        proof {
                            self.lemma_insert_keeps(before, used.seq(), dep@, added);
                            self.lemma_step(node@, dep@);
                            self.lemma_bound(used.seq());
                        }
                        j += 1;
                    }
                    assert forall|to: Seq<char>| self.has_edge(node@, to) implies used.contains_name(
                        to,
                    ) by {
                        let k = choose|k: int| 0 <= k < deps.seq().len() && deps.seq()[k] == to;
                        assert(used.contains_name(deps.seq()[k]));
                    }
                },
                None => {},
            }
            head += 1;
        }
        proof {
            assert forall|node: Seq<char>| self.reachable(node) implies used.contains_name(node) by {
                let path = choose|path: Seq<Seq<char>>|
                    #[trigger] self.is_path(path) && path.last() == node;
                self.lemma_closed(used.seq(), path, path.len() - 1);
            }
            assert forall|node: Seq<char>| used.contains_name(node) implies self.reachable(node) by {
                let k = choose|k: int| 0 <= k < used.seq().len() && used.seq()[k] == node;
                assert(self.reachable(used.seq()[k]));
            }
        }
        used
    }

    /// What an insertion into a set of names keeps and adds.
    proof fn lemma_insert_keeps(
        &self,
        before: Seq<Seq<char>>,
        after: Seq<Seq<char>>,
        name: Seq<char>,
        added: bool,
    )
        requires
            added == !before.contains(name),
            after == if added {
                before.push(name)
            } else {
                before
            },
        ensures
            after.contains(name),
            forall|other: Seq<char>| before.contains(other) ==> after.contains(other),
            forall|k: int| 0 <= k < before.len() ==> after[k] == before[k],
            forall|k: int|
                0 <= k < after.len() ==> #[trigger] after[k] == name || (k < before.len()
                    && after[k] == before[k]),
    {
        if added {
            assert(before.push(name)[before.len() as int] == name);
            assert forall|other: Seq<char>| before.contains(other) implies after.contains(other) by {
                let k = choose|k: int| 0 <= k < before.len() && before[k] == other;
                assert(after[k] == other);
            }
        }
    }

    /// The target of an edge from a reachable node is reachable.
    proof fn lemma_step(&self, from: Seq<char>, to: Seq<char>)
        requires
            self.reachable(from),
            self.has_edge(from, to),
        ensures
            self.reachable(to),
    {
        let path = choose|path: Seq<Seq<char>>| #[trigger] self.is_path(path) && path.last() == from;
        let longer = path.push(to);
        assert forall|i: int| 0 <= i < longer.len() - 1 implies self.has_edge(
            #[trigger] longer[i],
            longer[i + 1],
        ) by {
            if i < path.len() - 1 {
                assert(self.has_edge(path[i], path[i + 1]));
            }
        }
        assert(self.is_path(longer) && longer.last() == to);
    }

    /// Reachable nodes, held once each, are no more than the nodes of the graph.
    proof fn lemma_bound(&self, names: Seq<Seq<char>>)
        requires
            names.no_duplicates(),
            forall|k: int| 0 <= k < names.len() ==> self.reachable(#[trigger] names[k]),
        ensures
            names.len() <= self.universe().to_set().len(),
    {
        broadcast use seq_to_set_is_finite;

        names.unique_seq_to_set();
        assert forall|name: Seq<char>| names.to_set().contains(name) implies self.universe().to_set().contains(
            name,
        ) by {
            let k = choose|k: int| 0 <= k < names.len() && names[k] == name;
            assert(self.reachable(names[k]));
            self.lemma_in_universe(name);
        }
        lemma_len_subset(names.to_set(), self.universe().to_set());
    }

    /// A reachable node is a root or the target of an edge.
    proof fn lemma_in_universe(&self, node: Seq<char>)
        requires
            self.reachable(node),
        ensures
            self.universe().contains(node),
    {
        let path = choose|path: Seq<Seq<char>>| #[trigger] self.is_path(path) && path.last() == node;
        let all = targets(self.edges, self.edges.entries@.len());
        if path.len() == 1 {
            let k = choose|k: int|
                0 <= k < self.roots.seq().len() && self.roots.seq()[k] == node;
            assert(self.universe()[k] == node);
        } else {
            let from = path[path.len() - 2];
            assert(self.has_edge(path[path.len() - 2], path[path.len() - 2 + 1]));
            crate::table::lemma_first_at(self.edges.keys(), from, 0);
            let i = self.edges.position(from)->0;
            lemma_targets_hold(self.edges, self.edges.entries@.len(), i, node);
            let k = choose|k: int| 0 <= k < all.len() && all[k] == node;
            assert(self.universe()[self.roots.seq().len() + k] == node);
        }
    }

    /// A set of names that holds the roots and, with a node, the targets of its
    /// edges, holds every node of a path.
    proof fn lemma_closed(&self, names: Seq<Seq<char>>, path: Seq<Seq<char>>, i: int)
        requires
            self.is_path(path),
            0 <= i < path.len(),
            forall|root: Seq<char>| self.roots.contains_name(root) ==> names.contains(root),
            forall|k: int, to: Seq<char>|
                0 <= k < names.len() && self.has_edge(#[trigger] names[k], to)
                    ==> #[trigger] names.contains(to),
        ensures
            names.contains(path[i]),
        decreases i,
    {
        if i > 0 {
            self.lemma_closed(names, path, i - 1);
            let k = choose|k: int| 0 <= k < names.len() && names[k] == path[i - 1];
            assert(self.has_edge(path[i - 1], path[i - 1 + 1]));
            assert(self.has_edge(names[k], path[i]));
        }
    }
}


/// Whether `path` starts at one of `roots` and follows `edges`.
pub open spec fn is_path_in(
    roots: Set<Seq<char>>,
    edges: Set<(Seq<char>, Seq<char>)>,
    path: Seq<Seq<char>>,
) -> bool {
    &&& path.len() >= 1
    &&& roots.contains(path[0])
    &&& forall|i: int| 0 <= i < path.len() - 1 ==> edges.contains((#[trigger] path[i], path[i + 1]))
}

/// Whether `node` is one of `roots` or can be reached from one along `edges`.
pub open spec fn reachable_in(
    roots: Set<Seq<char>>,
    edges: Set<(Seq<char>, Seq<char>)>,
    node: Seq<char>,
) -> bool {
    exists|path: Seq<Seq<char>>| #[trigger] is_path_in(roots, edges, path) && path.last() == node
}

impl DependencyGraph {
    /// The roots of the graph as a set.
    pub open spec fn root_set(&self) -> Set<Seq<char>> {
        Set::new(|node: Seq<char>| self.roots.contains_name(node))
    }

    /// The edges of the graph as pairs.
    pub open spec fn edge_set(&self) -> Set<(Seq<char>, Seq<char>)> {
        Set::new(|e: (Seq<char>, Seq<char>)| self.has_edge(e.0, e.1))
    }

    /// What can be reached in the graph is what can be reached from its roots along its edges.
    pub proof fn lemma_reachable_in(&self, node: Seq<char>)
        ensures
            self.reachable(node) == reachable_in(self.root_set(), self.edge_set(), node),
    {
        if self.reachable(node) {
            let path = choose|path: Seq<Seq<char>>| #[trigger] self.is_path(path) && path.last() == node;
            assert forall|i: int| 0 <= i < path.len() - 1 implies self.edge_set().contains(
                (#[trigger] path[i], path[i + 1]),
            ) by {
                assert(self.has_edge(path[i], path[i + 1]));
            }
            assert(is_path_in(self.root_set(), self.edge_set(), path));
        }
        if reachable_in(self.root_set(), self.edge_set(), node) {
            let path = choose|path: Seq<Seq<char>>|
                #[trigger] is_path_in(self.root_set(), self.edge_set(), path) && path.last() == node;
            assert forall|i: int| 0 <= i < path.len() - 1 implies self.has_edge(
                #[trigger] path[i],
                path[i + 1],
            ) by {
                assert(self.edge_set().contains((path[i], path[i + 1])));
            }
            assert(self.is_path(path));
        }
    }
}

} // verus!
