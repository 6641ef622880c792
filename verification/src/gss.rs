//! A persistent stack. Stacks share their nodes, so a clone costs one pointer
//! copy and a stack can be forked at a branch and compared afterwards.

use std::rc::Rc;
use vstd::prelude::*;
use vstd::std_specs::cmp::{PartialEqSpec, PartialEqSpecImpl};

verus! {

/// A node of a stack: the bottom, or an item on top of the nodes below it.
pub enum StackNode<T> {
    Root,
    Node { parent: Rc<StackNode<T>>, data: T },
}

/// A stack of items. A clone shares the nodes of the stack that it was made from.
pub struct Stack<T> {
    pub len: usize,
    pub tip: Rc<StackNode<T>>,
}

/// Walks a stack from its top to its bottom.
pub struct StackIter<T> {
    pub inner: Rc<StackNode<T>>,
}

/// `copy` holds a clone of each item of `orig`, in the same order.
pub open spec fn cloned_seq<T: Clone>(orig: Seq<T>, copy: Seq<T>) -> bool {
    &&& orig.len() == copy.len()
    &&& forall|i: int| 0 <= i < orig.len() ==> cloned(#[trigger] orig[i], copy[i])
}

/// The two sequences are equal item by item, as `==` on `T` sees it.
pub open spec fn eq_seq<T: PartialEq>(a: Seq<T>, b: Seq<T>) -> bool {
    &&& a.len() == b.len()
    &&& forall|i: int| 0 <= i < a.len() ==> (#[trigger] a[i]).eq_spec(&b[i])
}

impl<T> StackNode<T> {
    /// The items from the bottom of the stack up to this node.
    pub open spec fn items(self) -> Seq<T>
        decreases self,
    {
        match self {
            StackNode::Root => Seq::empty(),
            StackNode::Node { parent, data } => (*parent).items().push(data),
        }
    }
}

impl<T> View for Stack<T> {
    type V = Seq<T>;

    /// The items, bottom first.
    open spec fn view(&self) -> Seq<T> {
        (*self.tip).items()
    }
}

impl<T> View for StackIter<T> {
    type V = Seq<T>;

    /// The items still to come, bottom first: the walk hands out the last one next.
    open spec fn view(&self) -> Seq<T> {
        (*self.inner).items()
    }
}

impl<T> Stack<T> {
    /// The recorded length is the number of items.
    pub open spec fn wf(&self) -> bool {
        self.len == self@.len()
    }
}

impl<T> Clone for Stack<T> {
    fn clone(&self) -> (s: Stack<T>)
        ensures
            s == *self,
    {
        Stack { len: self.len, tip: self.tip.clone() }
    }
}

/// The items of `v` in the opposite order.
fn reversed<T>(v: Vec<T>) -> (r: Vec<T>)
    ensures
        r@ == v@.reverse(),
{
    let mut v = v;
    let ghost orig = v@;
    let mut r: Vec<T> = Vec::new();
    while v.len() > 0
        invariant
            v@.len() + r@.len() == orig.len(),
            v@ == orig.take(v@.len() as int),
            forall|k: int| 0 <= k < r@.len() ==> r@[k] == orig[orig.len() - 1 - k],
        decreases v@.len(),
    {
        let item = v.pop().unwrap();
        r.push(item);
    }
    assert(r@ =~= orig.reverse());
    r
}

impl<T: Clone> Stack<T> {
    /// The stack without items.
    pub fn empty() -> (s: Stack<T>)
        ensures
            s.wf(),
            s@ == Seq::<T>::empty(),
    {
        Stack { len: 0, tip: Rc::new(StackNode::Root) }
    }

    /// The stack that holds a clone of each item of `stack`, the last one on top.
    pub fn from(stack: &Vec<T>) -> (s: Stack<T>)
        ensures
            s.wf(),
            cloned_seq(stack@, s@),
    {
        let mut s = Stack { len: 0, tip: Rc::new(StackNode::Root) };
        let mut i: usize = 0;
        while i < stack.len()
            invariant
                i <= stack.len(),
                s.wf(),
                cloned_seq(stack@.take(i as int), s@),
            decreases stack.len() - i,
        {
            let item = stack[i].clone();
            let ghost before = s@;
            s.push(item);
            assert forall|k: int| 0 <= k < i + 1 implies cloned(
                #[trigger] stack@.take(i + 1)[k],
                s@[k],
            ) by {
                if k < i {
                    assert(cloned(stack@.take(i as int)[k], before[k]));
                }
            }
            i += 1;
        }
        assert(stack@.take(stack.len() as int) =~= stack@);
        s
    }

    /// A clone of each item, bottom first.
    pub fn to_vec(&self) -> (v: Vec<T>)
        ensures
            cloned_seq(self@, v@),
    {
        let mut v: Vec<T> = Vec::new();
        let mut it = self.iter();
        loop
            invariant
                it@.len() + v@.len() == self@.len(),
                it@ == self@.take(it@.len() as int),
                forall|k: int| 0 <= k < v@.len() ==> cloned(self@[self@.len() - 1 - k], #[trigger] v@[k]),
            ensures
                v@.len() == self@.len(),
            decreases it@.len(),
        {
            match it.next() {
                Some(item) => {
                    v.push(item);
                },
                None => {
                    break ;
                },
            }
        }
        let r = reversed(v);
        assert forall|k: int| 0 <= k < self@.len() implies cloned(#[trigger] self@[k], r@[k]) by {
            assert(r@[k] == v@[self@.len() - 1 - k]);
        }
        r
    }

    /// Puts `data` on top.
    pub fn push(&mut self, data: T)
        requires
            old(self).wf(),
            old(self)@.len() < usize::MAX,
        ensures
            final(self).wf(),
            final(self)@ == old(self)@.push(data),
    {
        self.tip = Rc::new(StackNode::Node { parent: self.tip.clone(), data });
        self.len += 1;
    }

    /// A clone of the top item, or `None` on an empty stack.
    pub fn peek(&self) -> (r: Option<T>)
        ensures
            match r {
                Some(item) => self@.len() > 0 && cloned(self@.last(), item),
                None => self@.len() == 0,
            },
    {
        match &*self.tip {
            StackNode::Root => None,
            StackNode::Node { data, .. } => Some(data.clone()),
        }
    }

    /// Takes the top item off and returns a clone of it; `None`, and no change, on an empty stack.
    pub fn pop(&mut self) -> (r: Option<T>)
        requires
            old(self).wf(),
        ensures
            final(self).wf(),
            match r {
                Some(item) => old(self)@.len() > 0 && cloned(old(self)@.last(), item) && final(self)@ == old(self)@.drop_last(),
                None => old(self)@.len() == 0 && *final(self) == *old(self),
            },
    {
        let tip = self.tip.clone();
        match &*tip {
            StackNode::Node { parent, data } => {
                self.tip = parent.clone();
                self.len -= 1;
                assert(self@ =~= old(self)@.drop_last());
                Some(data.clone())
            },
            StackNode::Root => None,
        }
    }

    /// Clones of the top `num` items, bottom first; of all items where the stack holds fewer.
    pub fn peek_n(&self, num: usize) -> (v: Vec<T>)
        ensures
            cloned_seq(
                self@.skip(
                    if num <= self@.len() {
                        self@.len() - num
                    } else {
                        0
                    },
                ),
                v@,
            ),
    {
        let mut v: Vec<T> = Vec::new();
        let mut it = self.iter();
        while v.len() < num
            invariant
                v@.len() <= num,
                it@.len() + v@.len() == self@.len(),
                it@ == self@.take(it@.len() as int),
                forall|k: int| 0 <= k < v@.len() ==> cloned(self@[self@.len() - 1 - k], #[trigger] v@[k]),
            ensures
                v@.len() == if num <= self@.len() { num as int } else { self@.len() as int },
                forall|k: int| 0 <= k < v@.len() ==> cloned(self@[self@.len() - 1 - k], #[trigger] v@[k]),
            decreases it@.len(),
        {
            match it.next() {
                Some(item) => {
                    v.push(item);
                },
                None => {
                    break ;
                },
            }
        }
        let r = reversed(v);
        let ghost base = self@.len() - v@.len();
        assert forall|k: int| 0 <= k < v@.len() implies cloned(#[trigger] self@.skip(base)[k], r@[k]) by {
            assert(r@[k] == v@[v@.len() - 1 - k]);
        }
        r
    }

    /// A walk over the items from the top down.
    pub fn iter(&self) -> (it: StackIter<T>)
        ensures
            it@ == self@,
    {
        StackIter { inner: self.tip.clone() }
    }

    /// Whether the stack holds no item.
    pub fn is_empty(&self) -> (b: bool)
        requires
            self.wf(),
        ensures
            b == (self@.len() == 0),
    {
        self.len == 0
    }
}

impl<T: Clone> StackIter<T> {
    /// Hands out a clone of the topmost item not yet seen, or `None` at the bottom.
    pub fn next(&mut self) -> (r: Option<T>)
        ensures
            match r {
                Some(item) => old(self)@.len() > 0 && cloned(old(self)@.last(), item) && final(self)@ == old(self)@.drop_last(),
                None => old(self)@.len() == 0 && final(self)@ == old(self)@,
            },
    {
        let inner = self.inner.clone();
        match &*inner {
            StackNode::Root => None,
            StackNode::Node { parent, data } => {
                self.inner = parent.clone();
                assert(self@ =~= old(self)@.drop_last());
                Some(data.clone())
            },
        }
    }
}

impl<T: Clone + PartialEq> Stack<T> {
    /// Whether the stack holds the items of `other`, bottom first.
    pub fn eq_vec(&self, other: &Vec<T>) -> (b: bool)
        requires
            self.wf(),
        ensures
            T::obeys_eq_spec() ==> b == eq_seq(self@, other@),
    {
        if self.len != other.len() {
            return false;
        }
        let mut node: &Rc<StackNode<T>> = &self.tip;
        let mut i: usize = other.len();
        loop
            invariant
                i <= other@.len(),
                self@.len() == other@.len(),
                (**node).items() == self@.take(i as int),
                T::obeys_eq_spec() ==> forall|k: int| i <= k < other@.len() ==> (#[trigger] self@[k]).eq_spec(&other@[k]),
            ensures
                T::obeys_eq_spec() ==> eq_seq(self@, other@),
            decreases i,
        {
            match &**node {
                StackNode::Root => {
                    break ;
                },
                StackNode::Node { parent, data } => {
                    assert(self@.take(i as int).len() > 0);
                    assert(self@.take(i as int).last() == *data);
                    if !(*data == other[i - 1]) {
                        return false;
                    }
                    assert(self@.take(i as int).drop_last() =~= self@.take(i - 1));
                    node = parent;
                    i -= 1;
                },
            }
        }
        true
    }

    /// Whether the two stacks hold equal items in the same order.
    pub fn same_items(&self, other: &Stack<T>) -> (b: bool)
        ensures
            T::obeys_eq_spec() ==> b == eq_seq(self@, other@),
    {
        let mut a: &Rc<StackNode<T>> = &self.tip;
        let mut b: &Rc<StackNode<T>> = &other.tip;
        let ghost n = self@.len() as int;
        let ghost m = other@.len() as int;
        let ghost mut i = 0int;
        loop
            invariant
                0 <= i <= n,
                i <= m,
                n == self@.len(),
                m == other@.len(),
                (**a).items() == self@.take(n - i),
                (**b).items() == other@.take(m - i),
                T::obeys_eq_spec() ==> forall|k: int|
                    0 <= k < i ==> (#[trigger] self@[n - 1 - k]).eq_spec(&other@[m - 1 - k]),
            decreases n - i,
        {
            match (&**a, &**b) {
                (StackNode::Root, StackNode::Root) => {
                    assert(self@.take(n - i).len() == 0);
                    assert(other@.take(m - i).len() == 0);
                    proof {
                        if T::obeys_eq_spec() {
                            assert forall|k: int| 0 <= k < n implies (#[trigger] self@[k]).eq_spec(
                                &other@[k],
                            ) by {
                                assert(self@[n - 1 - (n - 1 - k)].eq_spec(&other@[m - 1 - (n - 1 - k)]));
                            }
                        }
                    }
                    return true;
                },
                (StackNode::Node { parent: pa, data: da }, StackNode::Node { parent: pb, data: db }) => {
                    assert(self@.take(n - i).len() > 0);
                    assert(other@.take(m - i).len() > 0);
                    assert(self@.take(n - i).last() == *da);
                    assert(other@.take(m - i).last() == *db);
                    if !(*da == *db) {
                        proof {
                            if T::obeys_eq_spec() && eq_seq(self@, other@) {
                                assert(self@[n - 1 - i].eq_spec(&other@[n - 1 - i]));
                            }
                        }
                        return false;
                    }
                    assert(self@.take(n - i).drop_last() =~= self@.take(n - i - 1));
                    assert(other@.take(m - i).drop_last() =~= other@.take(m - i - 1));
                    a = pa;
                    b = pb;
                    proof {
                        i = i + 1;
                    }
                },
                _ => {
                    assert(self@.take(n - i).len() == n - i);
                    assert(other@.take(m - i).len() == m - i);
                    return false;
                },
            }
        }
    }
}

impl<T: Clone + PartialEq> PartialEq for Stack<T> {
    fn eq(&self, other: &Stack<T>) -> (r: bool) {
        self.same_items(other)
    }
}

impl<T: Clone + PartialEq> PartialEqSpecImpl for Stack<T> {
    open spec fn obeys_eq_spec() -> bool {
        T::obeys_eq_spec()
    }

    open spec fn eq_spec(&self, other: &Stack<T>) -> bool {
        eq_seq(self@, other@)
    }
}

} // verus!
