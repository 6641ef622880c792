//! The constants of a program as assembly text.

use crate::arena::{AllocationView, ConstAllocation, Marker};
use crate::assembly::{label_line, label_line_text};
use crate::labels::{const_label, const_label_of};
use crate::state::GlobalState;
use crate::text::{hex_word, push_hex_word};
use vstd::prelude::*;
use vstd::string::StringExecFns;

verus! {

/// The comment behind the word `w`: the character that it stands for, where
/// it is printable or one of tab, new line, carriage return and zero.
pub open spec fn comment_text(w: u16) -> Seq<char> {
    if 0x20 <= w <= 0x7E {
        " # '"@ + seq![w as char] + " '"@
    } else if w == 0x09 {
        " # '\\t'"@
    } else if w == 0x0A {
        " # '\\n'"@
    } else if w == 0x0D {
        " # '\\r'"@
    } else if w == 0x00 {
        " # '\\0'"@
    } else {
        Seq::empty()
    }
}

/// The line of the word `w`.
pub open spec fn word_line(w: u16) -> Seq<char> {
    "    "@ + hex_word(w) + comment_text(w) + "\n"@
}

/// The labels of those of the first `n` markers that lie at `index`, in order.
pub open spec fn marker_labels(markers: Seq<(Seq<char>, int)>, index: int, n: nat) -> Seq<char>
    decreases n,
{
    if n == 0 || n > markers.len() {
        Seq::empty()
    } else if markers[n - 1].1 == index {
        marker_labels(markers, index, (n - 1) as nat) + label_line_text(
            const_label_of(markers[n - 1].0),
        )
    } else {
        marker_labels(markers, index, (n - 1) as nat)
    }
}

/// The text of the first `n` words of an allocation: before each word the
/// labels of the constants that start at it.
pub open spec fn allocation_text(alloc: AllocationView, n: nat) -> Seq<char>
    decreases n,
{
    if n == 0 || n > alloc.seq.len() {
        Seq::empty()
    } else {
        allocation_text(alloc, (n - 1) as nat) + marker_labels(
            alloc.markers,
            n - 1,
            alloc.markers.len(),
        ) + word_line(alloc.seq[n - 1])
    }
}

/// The text of the first `n` allocations.
pub open spec fn consts_text(allocs: Seq<AllocationView>, n: nat) -> Seq<char>
    decreases n,
{
    if n == 0 || n > allocs.len() {
        Seq::empty()
    } else {
        consts_text(allocs, (n - 1) as nat) + allocation_text(
            allocs[n - 1],
            allocs[n - 1].seq.len(),
        )
    }
}

/// The comment behind the word `i`.
pub fn char_comment(i: u16) -> (r: String)
    ensures
        r@ == comment_text(i),
{
    if 0x20 <= i && i <= 0x7E {
        let mut r = String::from_str(" # '");
        r.push(i as u8 as char);
        r.append(" '");
        r
    } else if i == 0x09 {
        String::from_str(" # '\\t'")
    } else if i == 0x0A {
        String::from_str(" # '\\n'")
    } else if i == 0x0D {
        String::from_str(" # '\\r'")
    } else if i == 0x00 {
        String::from_str(" # '\\0'")
    } else {
        String::new()
    }
}

/// The labels of the markers that lie at `index`.
fn labels_at(markers: &Vec<Marker>, index: usize) -> (r: String)
    ensures
        r@ == marker_labels(crate::arena::view_markers(markers@), index as int, markers@.len()),
{
    let ghost view = crate::arena::view_markers(markers@);
    let mut r = String::new();
    let mut k: usize = 0;
    while k < markers.len()
        invariant
            k <= markers.len(),
            view == crate::arena::view_markers(markers@),
            r@ == marker_labels(view, index as int, k as nat),
        decreases markers.len() - k,
    {
        if markers[k].offset == index {
            r.append(label_line(const_label(markers[k].id.as_str()).as_str()).as_str());
        }
        k += 1;
    }
    r
}

/// The text of an allocation.
fn emit_allocation(alloc: &ConstAllocation) -> (r: String)
    ensures
        r@ == allocation_text(alloc@, alloc.seq@.len()),
{
    let mut r = String::new();
    let mut i: usize = 0;
    while i < alloc.seq.len()
        invariant
            i <= alloc.seq.len(),
            r@ == allocation_text(alloc@, i as nat),
        decreases alloc.seq.len() - i,
    {
        r.append(labels_at(&alloc.markers, i).as_str());
        let mut line = String::from_str("    ");
        push_hex_word(&mut line, alloc.seq[i]);
        line.append(char_comment(alloc.seq[i]).as_str());
        line.append("\n");
        r.append(line.as_str());
        i += 1;
    }
    r
}

/// The constants of the program: for each allocation its words, one on a
/// line, and before each word the labels of the constants that start at it.
pub fn emit_consts(global_state: &GlobalState) -> (r: String)
    ensures
        r@ == consts_text(global_state.const_allocs@.allocs, global_state.const_allocs@.allocs.len()),
{
    let ghost allocs = global_state.const_allocs@.allocs;
    let mut r = String::new();
    let mut n: usize = 0;
    while n < global_state.const_allocs.allocs.len()
        invariant
            n <= global_state.const_allocs.allocs@.len(),
            allocs == global_state.const_allocs@.allocs,
            r@ == consts_text(allocs, n as nat),
        decreases global_state.const_allocs.allocs.len() - n,
    {
        r.append(emit_allocation(&global_state.const_allocs.allocs[n]).as_str());
        n += 1;
    }
    r
}

} // verus!
