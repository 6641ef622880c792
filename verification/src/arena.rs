//! Storage for constant word sequences. Sequences that overlap at their ends
//! share their words: `abcd` and `bcd` take four words together.

use crate::text::{decimal, decimal_digits};
use vstd::prelude::*;

verus! {

/// The place of a constant in an allocation.
#[derive(Debug)]
pub struct Marker {
    pub id: String,
    /// The index in the allocation's words of the constant's first word.
    pub offset: usize,
}

/// Words that are stored in a row, and the constants that start among them.
#[derive(Debug)]
pub struct ConstAllocation {
    pub markers: Vec<Marker>,
    pub seq: Vec<u16>,
}

/// The allocations of a compilation.
#[derive(Debug)]
pub struct ConstAllocationArena {
    /// The number of the constant allocated last.
    pub id: usize,
    pub allocs: Vec<ConstAllocation>,
}

/// Whether `a`, laid over `b` from index `i` of `b` on, agrees with `b` as far as `b` goes.
pub open spec fn overlaps_at(a: Seq<u16>, b: Seq<u16>, i: int) -> bool {
    &&& 0 <= i < b.len()
    &&& forall|k: int| 0 <= k < a.len() && i + k < b.len() ==> a[k] == #[trigger] b[i + k]
}

/// The least index at or after `from` at which `a` can be laid over `b`.
pub open spec fn first_overlap(a: Seq<u16>, b: Seq<u16>, from: int) -> Option<int>
    decreases b.len() - from,
{
    if from < 0 || from >= b.len() {
        None
    } else if overlaps_at(a, b, from) {
        Some(from)
    } else {
        first_overlap(a, b, from + 1)
    }
}

/// What `first_overlap` finds is an overlap, and the least one from `from` on.
pub proof fn lemma_first_overlap(a: Seq<u16>, b: Seq<u16>, from: int)
    requires
        0 <= from,
    ensures
        match first_overlap(a, b, from) {
            Some(i) => from <= i && overlaps_at(a, b, i) && forall|j: int|
                from <= j < i ==> !overlaps_at(a, b, j),
            None => forall|j: int| from <= j ==> !overlaps_at(a, b, j),
        },
    decreases b.len() - from,
{
    if from < b.len() && !overlaps_at(a, b, from) {
        lemma_first_overlap(a, b, from + 1);
    }
}

/// How a new sequence `arr` joins the words `seq` of an allocation.
pub struct Merge {
    /// The words of the allocation afterwards.
    pub seq: Seq<u16>,
    /// Where `arr` starts in them.
    pub offset: int,
    /// By how much the words that were there before have moved up.
    pub shift: int,
}

/// The way in which `arr` joins `seq`, if the two overlap. `arr` is laid over
/// `seq` at the first index at which it fits, and `seq` grows at its end by
/// what sticks out. Where `arr` fits nowhere, `seq` is laid over `arr` in the
/// same way, and the old words move up.
pub open spec fn merge(seq: Seq<u16>, arr: Seq<u16>) -> Option<Merge> {
    match first_overlap(arr, seq, 0) {
        Some(i) => Some(
            Merge {
                seq: if i + arr.len() > seq.len() {
                    seq + arr.skip(seq.len() - i)
                } else {
                    seq
                },
                offset: i,
                shift: 0,
            },
        ),
        None => match first_overlap(seq, arr, 0) {
            Some(i) => Some(
                Merge {
                    seq: if i + seq.len() > arr.len() {
                        arr + seq.skip(arr.len() - i)
                    } else {
                        arr
                    },
                    offset: 0,
                    shift: i,
                },
            ),
            None => None,
        },
    }
}

/// After a merge the new sequence is found at its offset, and the words that
/// were there before are found unchanged at the shift.
pub proof fn lemma_merge_keeps_words(seq: Seq<u16>, arr: Seq<u16>)
    requires
        merge(seq, arr) is Some,
    ensures
        ({
            let m = merge(seq, arr)->0;
            &&& 0 <= m.offset
            &&& m.offset + arr.len() <= m.seq.len()
            &&& m.seq.subrange(m.offset, m.offset + arr.len()) == arr
            &&& 0 <= m.shift
            &&& m.shift + seq.len() <= m.seq.len()
            &&& m.seq.subrange(m.shift, m.shift + seq.len()) == seq
        }),
{
    let m = merge(seq, arr)->0;
    lemma_first_overlap(arr, seq, 0);
    lemma_first_overlap(seq, arr, 0);
    match first_overlap(arr, seq, 0) {
        Some(i) => {
            assert forall|k: int| 0 <= k < arr.len() implies m.seq[i + k] == arr[k] by {
                if i + k < seq.len() {
                    assert(arr[k] == seq[i + k]);
                }
            }
            assert(m.seq.subrange(m.offset, m.offset + arr.len()) =~= arr);
            assert(m.seq.subrange(m.shift, m.shift + seq.len()) =~= seq);
        },
        None => {
            let i = first_overlap(seq, arr, 0)->0;
            assert forall|k: int| 0 <= k < seq.len() implies m.seq[i + k] == seq[k] by {
                if i + k < arr.len() {
                    assert(seq[k] == arr[i + k]);
                }
            }
            assert(m.seq.subrange(m.offset, m.offset + arr.len()) =~= arr);
            assert(m.seq.subrange(m.shift, m.shift + seq.len()) =~= seq);
        },
    }
}

/// The names and offsets of markers.
pub open spec fn view_markers(markers: Seq<Marker>) -> Seq<(Seq<char>, int)> {
    Seq::new(markers.len(), |i: int| (markers[i].id@, markers[i].offset as int))
}

/// The markers moved up by `shift`.
pub open spec fn shifted(markers: Seq<(Seq<char>, int)>, shift: int) -> Seq<(Seq<char>, int)> {
    Seq::new(markers.len(), |i: int| (markers[i].0, markers[i].1 + shift))
}

/// The mathematical value of an allocation.
pub struct AllocationView {
    pub markers: Seq<(Seq<char>, int)>,
    pub seq: Seq<u16>,
}

impl AllocationView {
    /// The allocation after `arr` has joined it under the name `id`, where it can.
    pub open spec fn insert(self, arr: Seq<u16>, id: Seq<char>) -> Option<AllocationView> {
        match merge(self.seq, arr) {
            Some(m) => Some(
                AllocationView {
                    markers: shifted(self.markers, m.shift).push((id, m.offset)),
                    seq: m.seq,
                },
            ),
            None => None,
        }
    }

    /// Every marker lies within the words.
    pub open spec fn wf(self) -> bool {
        forall|i: int| 0 <= i < self.markers.len() ==> 0 <= (#[trigger] self.markers[i]).1 <= self.seq.len()
    }
}

impl View for ConstAllocation {
    type V = AllocationView;

    open spec fn view(&self) -> AllocationView {
        AllocationView { markers: view_markers(self.markers@), seq: self.seq@ }
    }
}

/// The mathematical value of an arena.
pub struct ArenaView {
    pub id: nat,
    pub allocs: Seq<AllocationView>,
}

/// The first allocation, from `from` on, that `arr` can join.
pub open spec fn first_fit(allocs: Seq<AllocationView>, arr: Seq<u16>, from: int) -> Option<int>
    decreases allocs.len() - from,
{
    if from < 0 || from >= allocs.len() {
        None
    } else if merge(allocs[from].seq, arr) is Some {
        Some(from)
    } else {
        first_fit(allocs, arr, from + 1)
    }
}

impl ArenaView {
    /// The name of the constant that is allocated next.
    pub open spec fn next_name(self) -> Seq<char> {
        decimal_digits(self.id + 1)
    }

    /// The arena after `arr` was allocated: it has joined the first allocation
    /// that it overlaps with, or stands in a new allocation of its own.
    pub open spec fn allocate(self, arr: Seq<u16>) -> ArenaView {
        let name = self.next_name();
        ArenaView {
            id: self.id + 1,
            allocs: match first_fit(self.allocs, arr, 0) {
                Some(i) => self.allocs.update(i, self.allocs[i].insert(arr, name)->0),
                None => self.allocs.push(
                    AllocationView { markers: seq![(name, 0int)], seq: arr },
                ),
            },
        }
    }

    pub open spec fn wf(self) -> bool {
        forall|i: int| 0 <= i < self.allocs.len() ==> (#[trigger] self.allocs[i]).wf()
    }
}

impl View for ConstAllocationArena {
    type V = ArenaView;

    open spec fn view(&self) -> ArenaView {
        ArenaView {
            id: self.id as nat,
            allocs: Seq::new(self.allocs@.len(), |i: int| self.allocs@[i]@),
        }
    }
}

impl ConstAllocation {
    /// Whether `a` laid over `b` from index `i` of `b` agrees with `b`.
    fn agrees(a: &Vec<u16>, b: &Vec<u16>, i: usize) -> (r: bool)
        requires
            i < b.len(),
        ensures
            r == overlaps_at(a@, b@, i as int),
    {
        let mut k: usize = 0;
        while k < a.len() && k < b.len() - i
            invariant
                i < b.len(),
                k <= a.len(),
                k <= b.len() - i,
                forall|j: int| 0 <= j < k ==> a@[j] == #[trigger] b@[i + j],
            decreases a.len() - k,
        {
            if a[k] != b[i + k] {
                return false;
            }
            k += 1;
        }
        true
    }

    /// The least index of `b` from which `a`, laid over `b`, agrees with `b`
    /// as far as `b` goes.
    pub fn overlap_start(a: &Vec<u16>, b: &Vec<u16>) -> (r: Option<usize>)
        ensures
            match r {
                Some(i) => first_overlap(a@, b@, 0) == Some(i as int),
                None => first_overlap(a@, b@, 0) is None,
            },
    {
        let mut i: usize = 0;
        while i < b.len()
            invariant
                i <= b.len(),
                first_overlap(a@, b@, 0) == first_overlap(a@, b@, i as int),
            decreases b.len() - i,
        {
            if Self::agrees(a, b, i) {
                return Some(i);
            }
            i += 1;
        }
        None
    }

    /// Lets `arr` join the allocation under the name `id` where the two
    /// overlap, and says whether it did. Without an overlap nothing changes.
    pub fn try_insert(&mut self, arr: &Vec<u16>, id: &str) -> (inserted: bool)
        requires
            old(self)@.wf(),
        ensures
            final(self)@.wf(),
            match old(self)@.insert(arr@, id@) {
                Some(after) => inserted && final(self)@ == after,
                None => !inserted && *final(self) == *old(self),
            },
    {
        proof {
            lemma_first_overlap(arr@, self.seq@, 0);
            lemma_first_overlap(self.seq@, arr@, 0);
        }
        if let Some(start) = Self::overlap_start(arr, &self.seq) {
            if arr.len() > self.seq.len() - start {
                let mut k: usize = self.seq.len() - start;
                let ghost base = self.seq@;
                while k < arr.len()
                    invariant
                        start < base.len(),
                        base.len() - start <= k <= arr.len(),
                        self.seq@ == base + arr@.subrange(base.len() - start, k as int),
                        self.markers == old(self).markers,
                    decreases arr.len() - k,
                {
                    self.seq.push(arr[k]);
                    assert(self.seq@ =~= base + arr@.subrange(base.len() - start, k + 1));
                    k += 1;
                }
                assert(arr@.subrange(base.len() - start, arr.len() as int) =~= arr@.skip(
                    base.len() - start,
                ));
            }
            self.markers.push(Marker { id: id.to_owned(), offset: start });
            assert(self@.markers =~= shifted(old(self)@.markers, 0).push((id@, start as int)));
            return true;
        }
        if let Some(start) = Self::overlap_start(&self.seq, arr) {
            let mut new_arr: Vec<u16> = arr.clone();
            assert(new_arr@ =~= arr@);
            if self.seq.len() > arr.len() - start {
                let mut k: usize = arr.len() - start;
                while k < self.seq.len()
                    invariant
                        start < arr.len(),
                        arr.len() - start <= k <= self.seq.len(),
                        new_arr@ == arr@ + self.seq@.subrange(arr.len() - start, k as int),
                        *self == *old(self),
                    decreases self.seq.len() - k,
                {
                    new_arr.push(self.seq[k]);
                    assert(new_arr@ =~= arr@ + self.seq@.subrange(arr.len() - start, k + 1));
                    k += 1;
                }
                assert(self.seq@.subrange(arr.len() - start, self.seq.len() as int)
                    =~= self.seq@.skip(arr.len() - start));
            }
            proof {
                lemma_merge_keeps_words(self.seq@, arr@);
            }
            let total = new_arr.len();
            let mut moved: Vec<Marker> = Vec::new();
            let mut i: usize = 0;
            while i < self.markers.len()
                invariant
                    i <= self.markers.len(),
                    *self == *old(self),
                    self@.wf(),
                    start + self.seq@.len() <= total,
                    moved@.len() == i,
                    forall|k: int|
                        0 <= k < i ==> (#[trigger] moved@[k]).id@ == self.markers@[k].id@
                            && moved@[k].offset == self.markers@[k].offset + start,
                decreases self.markers.len() - i,
            {
                assert(0 <= self@.markers[i as int].1 <= self.seq@.len());
                moved.push(
                    Marker { id: self.markers[i].id.clone(), offset: self.markers[i].offset + start },
                );
                i += 1;
            }
            moved.push(Marker { id: id.to_owned(), offset: 0 });
            assert(view_markers(moved@) =~= shifted(old(self)@.markers, start as int).push(
                (id@, 0int),
            ));
            self.markers = moved;
            self.seq = new_arr;
            return true;
        }
        false
    }
}

impl ConstAllocationArena {
    pub fn new() -> (arena: ConstAllocationArena)
        ensures
            arena@ == (ArenaView { id: 0, allocs: Seq::empty() }),
            arena@.wf(),
    {
        let arena = ConstAllocationArena { id: 0, allocs: Vec::new() };
        assert(arena@.allocs =~= Seq::empty());
        arena
    }

    /// Stores `arr` and returns the name of the new constant: the number of
    /// the allocation in decimal. `None`, and no change, once the numbers have
    /// run out.
    pub fn allocate(&mut self, arr: &Vec<u16>) -> (r: Option<String>)
        requires
            old(self)@.wf(),
        ensures
            final(self)@.wf(),
            match r {
                Some(id) => {
                    &&& old(self).id < usize::MAX
                    &&& id@ == old(self)@.next_name()
                    &&& final(self)@ == old(self)@.allocate(arr@)
                },
                None => old(self).id == usize::MAX && *final(self) == *old(self),
            },
    {
        if self.id == usize::MAX {
            return None;
        }
        self.id += 1;
        let id = decimal(self.id);
        let mut i: usize = 0;
        while i < self.allocs.len()
            invariant
                i <= self.allocs.len(),
                self.id == old(self).id + 1,
                self.allocs@ == old(self).allocs@,
                old(self)@.wf(),
                id@ == old(self)@.next_name(),
                first_fit(old(self)@.allocs, arr@, 0) == first_fit(old(self)@.allocs, arr@, i as int),
            decreases self.allocs.len() - i,
        {
            let mut alloc = ConstAllocation { markers: Vec::new(), seq: Vec::new() };
            assert(old(self)@.allocs[i as int].wf());
            std::mem::swap(&mut alloc, &mut self.allocs[i]);
            let inserted = alloc.try_insert(arr, id.as_str());
            self.allocs[i] = alloc;
            if inserted {
                assert(self@.allocs =~= old(self)@.allocate(arr@).allocs);
                return Some(id);
            }
            assert(self.allocs@ =~= old(self).allocs@);
            i += 1;
        }
        let mut markers: Vec<Marker> = Vec::new();
        markers.push(Marker { id: id.clone(), offset: 0 });
        self.allocs.push(ConstAllocation { markers, seq: arr.clone() });
        proof {
            let fresh = AllocationView { markers: seq![(id@, 0int)], seq: arr@ };
            assert(self@.allocs[old(self).allocs@.len() as int].markers =~= fresh.markers);
            assert(self@.allocs =~= old(self)@.allocs.push(fresh));
        }
        Some(id)
    }
}


/// What `first_fit` finds is an allocation that the sequence can join.
pub proof fn lemma_first_fit(allocs: Seq<AllocationView>, arr: Seq<u16>, from: int)
    requires
        0 <= from,
    ensures
        first_fit(allocs, arr, from) matches Some(i) ==> from <= i < allocs.len() && merge(
            allocs[i].seq,
            arr,
        ) is Some,
    decreases allocs.len() - from,
{
    if from < allocs.len() && merge(allocs[from].seq, arr) is None {
        lemma_first_fit(allocs, arr, from + 1);
    }
}

/// A constant that was allocated is found in the arena: one allocation has a
/// marker of its name, and the words of the constant stand at the marker.
pub proof fn allocated_constant_is_found(arena: ArenaView, arr: Seq<u16>)
    ensures
        ({
            let after = arena.allocate(arr);
            exists|i: int, k: int|
                {
                    &&& 0 <= i < after.allocs.len()
                    &&& 0 <= k < after.allocs[i].markers.len()
                    &&& (#[trigger] after.allocs[i].markers[k]).0 == arena.next_name()
                    &&& 0 <= after.allocs[i].markers[k].1
                    &&& after.allocs[i].markers[k].1 + arr.len() <= after.allocs[i].seq.len()
                    &&& after.allocs[i].seq.subrange(
                        after.allocs[i].markers[k].1,
                        after.allocs[i].markers[k].1 + arr.len(),
                    ) == arr
                }
        }),
{
    let after = arena.allocate(arr);
    lemma_first_fit(arena.allocs, arr, 0);
    match first_fit(arena.allocs, arr, 0) {
        Some(i) => {
            lemma_merge_keeps_words(arena.allocs[i].seq, arr);
            let k = arena.allocs[i].markers.len() as int;
            assert(after.allocs[i].markers[k].0 == arena.next_name());
        },
        None => {
            let i = arena.allocs.len() as int;
            assert(after.allocs[i].markers[0].0 == arena.next_name());
            assert(after.allocs[i].seq.subrange(0, arr.len() as int) =~= arr);
        },
    }
}

/// An allocation keeps the constants that it held: each earlier marker is
/// still there under its name, and the words from the marker to the end of
/// the earlier sequence stand at the marker as before.
pub proof fn earlier_constants_stay(arena: ArenaView, arr: Seq<u16>, i: int, k: int)
    requires
        arena.wf(),
        0 <= i < arena.allocs.len(),
        0 <= k < arena.allocs[i].markers.len(),
    ensures
        ({
            let before = arena.allocs[i];
            let after = arena.allocate(arr).allocs[i];
            let rest = before.seq.len() - before.markers[k].1;
            &&& i < arena.allocate(arr).allocs.len()
            &&& k < after.markers.len()
            &&& after.markers[k].0 == before.markers[k].0
            &&& 0 <= after.markers[k].1
            &&& after.markers[k].1 + rest <= after.seq.len()
            &&& after.seq.subrange(after.markers[k].1, after.markers[k].1 + rest)
                == before.seq.subrange(before.markers[k].1, before.seq.len() as int)
        }),
{
    let before = arena.allocs[i];
    let after = arena.allocate(arr).allocs[i];
    assert(before.wf());
    assert(0 <= before.markers[k].1 <= before.seq.len());
    lemma_first_fit(arena.allocs, arr, 0);
    match first_fit(arena.allocs, arr, 0) {
        Some(j) => {
            if j == i {
                lemma_merge_keeps_words(before.seq, arr);
                let m = merge(before.seq, arr)->0;
                let off = before.markers[k].1;
                let moved = after.seq.subrange(
                    off + m.shift,
                    off + m.shift + (before.seq.len() - off),
                );
                let kept = before.seq.subrange(off, before.seq.len() as int);
                assert(moved =~= kept) by {
                    assert forall|x: int| 0 <= x < kept.len() implies #[trigger] moved[x] == kept[x] by {
                        assert(m.seq.subrange(m.shift, m.shift + before.seq.len())[off + x]
                            == before.seq[off + x]);
                    }
                }
            } else {
                assert(after == before);
            }
        },
        None => {
            assert(after == before);
        },
    }
    if after == before {
        assert(after.seq.subrange(
            after.markers[k].1,
            after.markers[k].1 + (before.seq.len() - before.markers[k].1),
        ) =~= before.seq.subrange(before.markers[k].1, before.seq.len() as int));
    }
}

} // verus!
