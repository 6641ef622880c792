//! Include directives: where a text asks for another text to be put in, and
//! how it is put in.

use vstd::prelude::*;

verus! {

/// A directive `#include<path>` in a text.
#[derive(Debug, Clone, PartialEq, Eq)]
pub struct Include {
    /// The index of the first character of the directive.
    pub start: usize,
    /// The index behind the last character of the directive.
    pub end: usize,
    pub path: Vec<char>,
}

/// The mathematical value of a directive.
pub struct IncludeView {
    pub start: int,
    pub end: int,
    pub path: Seq<char>,
}

impl View for Include {
    type V = IncludeView;

    open spec fn view(&self) -> IncludeView {
        IncludeView { start: self.start as int, end: self.end as int, path: self.path@ }
    }
}

/// The word that starts a directive.
pub open spec fn opener() -> Seq<char> {
    seq!['#', 'i', 'n', 'c', 'l', 'u', 'd', 'e', '<']
}

/// Whether the character can stand in a path: a letter, a digit, `_`, `/` or `-`.
pub open spec fn is_path_char(c: char) -> bool {
    ('a' <= c <= 'z') || ('A' <= c <= 'Z') || ('0' <= c <= '9') || c == '_' || c == '/' || c == '-'
}

/// The index behind the path characters that stand in a row from `from` on.
pub open spec fn path_end(s: Seq<char>, from: int) -> int
    decreases s.len() - from,
{
    if 0 <= from < s.len() && is_path_char(s[from]) {
        path_end(s, from + 1)
    } else {
        from
    }
}

/// The directive that starts at index `at`, if one does: the opener, a path
/// of at least one character, and `>`.
pub open spec fn include_at(s: Seq<char>, at: int) -> Option<IncludeView> {
    let from = at + 9;
    let to = path_end(s, from);
    if 0 <= at && from <= s.len() && s.subrange(at, from) == opener() && from < to && to < s.len()
        && s[to] == '>' {
        Some(IncludeView { start: at, end: to + 1, path: s.subrange(from, to) })
    } else {
        None
    }
}

/// The path of a directive ends behind its start and within the text.
pub proof fn lemma_path_end(s: Seq<char>, from: int)
    requires
        0 <= from <= s.len(),
    ensures
        from <= path_end(s, from) <= s.len(),
        forall|k: int| from <= k < path_end(s, from) ==> is_path_char(s[k]),
        path_end(s, from) < s.len() ==> !is_path_char(s[path_end(s, from)]),
    decreases s.len() - from,
{
    if from < s.len() && is_path_char(s[from]) {
        lemma_path_end(s, from + 1);
    }
}

/// The directives of the text from index `at` on, from the left and without overlap.
pub open spec fn includes_from(s: Seq<char>, at: int) -> Seq<IncludeView>
    decreases s.len() - at,
{
    if at < 0 || at >= s.len() {
        Seq::empty()
    } else {
        match include_at(s, at) {
            Some(found) => {
                proof {
                    lemma_path_end(s, at + 9);
                }
                seq![found] + includes_from(s, found.end)
            },
            None => includes_from(s, at + 1),
        }
    }
}

/// The values of directives.
pub open spec fn view_includes(includes: Seq<Include>) -> Seq<IncludeView> {
    Seq::new(includes.len(), |i: int| includes[i]@)
}

/// Whether the character can stand in a path.
pub fn path_char(c: char) -> (r: bool)
    ensures
        r == is_path_char(c),
{
    ('a' <= c && c <= 'z') || ('A' <= c && c <= 'Z') || ('0' <= c && c <= '9') || c == '_' || c
        == '/' || c == '-'
}

/// The directive that starts at index `at`.
fn directive_at(chars: &Vec<char>, at: usize) -> (r: Option<Include>)
    requires
        at < chars.len(),
    ensures
        match r {
            Some(found) => include_at(chars@, at as int) == Some(found@) && at < found.end
                <= chars.len(),
            None => include_at(chars@, at as int) is None,
        },
{
    if chars.len() - at < 9 {
        return None;
    }
    if !(chars[at] == '#' && chars[at + 1] == 'i' && chars[at + 2] == 'n' && chars[at + 3] == 'c'
        && chars[at + 4] == 'l' && chars[at + 5] == 'u' && chars[at + 6] == 'd' && chars[at + 7]
        == 'e' && chars[at + 8] == '<') {
        assert(chars@.subrange(at as int, at + 9) != opener()) by {
            let word = chars@.subrange(at as int, at + 9);
            if word == opener() {
                assert(word[0] == chars@[at + 0] && word[1] == chars@[at + 1] && word[2] == chars@[at
                    + 2] && word[3] == chars@[at + 3] && word[4] == chars@[at + 4] && word[5]
                    == chars@[at + 5] && word[6] == chars@[at + 6] && word[7] == chars@[at + 7]
                    && word[8] == chars@[at + 8]);
            }
        }
        return None;
    }
    assert(chars@.subrange(at as int, at + 9) =~= opener());
    let from = at + 9;
    let mut to: usize = from;
    let mut path: Vec<char> = Vec::new();
    while to < chars.len() && path_char(chars[to])
        invariant
            from <= to <= chars.len(),
            path_end(chars@, from as int) == path_end(chars@, to as int),
            path@ == chars@.subrange(from as int, to as int),
        decreases chars.len() - to,
    {
        path.push(chars[to]);
        assert(path@ =~= chars@.subrange(from as int, to + 1));
        to += 1;
    }
    if from < to && to < chars.len() && chars[to] == '>' {
        Some(Include { start: at, end: to + 1, path })
    } else {
        None
    }
}

/// The include directives of a text, from the left and without overlap.
pub fn find_includes(chars: &Vec<char>) -> (r: Vec<Include>)
    ensures
        view_includes(r@) == includes_from(chars@, 0),
{
    let mut found: Vec<Include> = Vec::new();
    let mut at: usize = 0;
    while at < chars.len()
        invariant
            at <= chars.len(),
            view_includes(found@) + includes_from(chars@, at as int) == includes_from(chars@, 0),
        decreases chars.len() - at,
    {
        let ghost before = view_includes(found@);
        match directive_at(chars, at) {
            Some(directive) => {
                let end = directive.end;
                found.push(directive);
                assert(view_includes(found@) =~= before.push(directive@));
                assert(view_includes(found@) + includes_from(chars@, end as int) =~= before
                    + includes_from(chars@, at as int));
                at = end;
            },
            None => {
                at += 1;
            },
        }
    }
    assert(view_includes(found@) + Seq::<IncludeView>::empty() =~= view_includes(found@));
    found
}

/// The text with the characters from `start` to `end` replaced by `replacement`.
pub fn splice(chars: &Vec<char>, start: usize, end: usize, replacement: &Vec<char>) -> (r: Vec<char>)
    requires
        start <= end <= chars.len(),
    ensures
        r@ == chars@.subrange(0, start as int) + replacement@ + chars@.subrange(
            end as int,
            chars@.len() as int,
        ),
{
    let mut r: Vec<char> = Vec::new();
    let mut i: usize = 0;
    while i < start
        invariant
            i <= start <= chars.len(),
            r@ == chars@.subrange(0, i as int),
        decreases start - i,
    {
        r.push(chars[i]);
        assert(r@ =~= chars@.subrange(0, i + 1));
        i += 1;
    }
    let mut j: usize = 0;
    while j < replacement.len()
        invariant
            j <= replacement.len(),
            r@ == chars@.subrange(0, start as int) + replacement@.subrange(0, j as int),
        decreases replacement.len() - j,
    {
        r.push(replacement[j]);
        assert(r@ =~= chars@.subrange(0, start as int) + replacement@.subrange(0, j + 1));
        j += 1;
    }
    assert(replacement@.subrange(0, replacement.len() as int) =~= replacement@);
    let mut k: usize = end;
    while k < chars.len()
        invariant
            end <= k <= chars.len(),
            r@ == chars@.subrange(0, start as int) + replacement@ + chars@.subrange(
                end as int,
                k as int,
            ),
        decreases chars.len() - k,
    {
        r.push(chars[k]);
        assert(r@ =~= chars@.subrange(0, start as int) + replacement@ + chars@.subrange(
            end as int,
            k + 1,
        ));
        k += 1;
    }
    r
}

} // verus!
