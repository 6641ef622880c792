//! The values of the literals of the source language.

use crate::text::{chars_of, parse_int, parsed_int};
use vstd::prelude::*;

verus! {

/// The text without its underscores.
pub open spec fn without_underscores(s: Seq<char>) -> Seq<char> {
    s.filter(|c: char| c != '_')
}

/// The number that `s` writes in the base `radix` behind a prefix of `skip`
/// characters: an optional minus sign, the prefix, and then an integer with
/// underscores between its digits at will. `None` where the text is shorter
/// than the prefix, the rest is no integer, or the number does not fit.
pub open spec fn literal_value(s: Seq<char>, radix: int, skip: int) -> Option<int> {
    let negative = s.len() > 0 && s[0] == '-';
    let rest = if negative {
        s.skip(1)
    } else {
        s
    };
    if rest.len() < skip {
        None
    } else {
        match parsed_int(
            without_underscores(rest.skip(skip)),
            radix,
            isize::MIN as int,
            isize::MAX as int,
        ) {
            None => None,
            Some(value) => {
                let signed = if negative {
                    -value
                } else {
                    value
                };
                if isize::MIN <= signed <= isize::MAX {
                    Some(signed)
                } else {
                    None
                }
            },
        }
    }
}

/// The sign that a leading minus gives, and the text behind the minus.
pub fn multi(s: &Vec<char>) -> (r: (isize, Vec<char>))
    ensures
        s@.len() > 0 && s@[0] == '-' ==> r.0 == -1 && r.1@ == s@.skip(1),
        !(s@.len() > 0 && s@[0] == '-') ==> r.0 == 1 && r.1@ == s@,
{
    let negative = s.len() > 0 && s[0] == '-';
    let start: usize = if negative {
        1
    } else {
        0
    };
    let mut rest: Vec<char> = Vec::new();
    let mut i: usize = start;
    while i < s.len()
        invariant
            start <= i <= s.len(),
            rest@ == s@.subrange(start as int, i as int),
        decreases s.len() - i,
    {
        rest.push(s[i]);
        assert(rest@ =~= s@.subrange(start as int, i + 1));
        i += 1;
    }
    assert(rest@ =~= s@.skip(start as int));
    assert(s@.skip(0) =~= s@);
    (
        if negative {
            -1
        } else {
            1
        },
        rest,
    )
}

/// Parses a literal in the base `radix` behind a prefix of `skip` characters.
fn literal(s: &str, radix: u32, skip: usize) -> (r: Result<isize, ()>)
    requires
        2 <= radix <= 36,
    ensures
        match r {
            Ok(value) => literal_value(s@, radix as int, skip as int) == Some(value as int),
            Err(()) => literal_value(s@, radix as int, skip as int) is None,
        },
{
    let chars = chars_of(s);
    let (sign, rest) = multi(&chars);
    if rest.len() < skip {
        return Err(());
    }
    let mut digits: Vec<char> = Vec::new();
    let mut i: usize = skip;
    while i < rest.len()
        invariant
            skip <= i <= rest.len(),
            digits@ == rest@.subrange(skip as int, i as int).filter(|c: char| c != '_'),
        decreases rest.len() - i,
    {
        let ghost before = rest@.subrange(skip as int, i as int);
        assert(rest@.subrange(skip as int, i + 1) =~= before.push(rest@[i as int]));
        proof {
            before.lemma_filter_push(rest@[i as int], |c: char| c != '_');
        }
        if rest[i] != '_' {
            digits.push(rest[i]);
        }
        i += 1;
    }
    assert(rest@.subrange(skip as int, rest.len() as int) =~= rest@.skip(skip as int));
    let min: i64 = isize::MIN as i64;
    let max: i64 = isize::MAX as i64;
    match parse_int(&digits, radix, min, max) {
        None => Err(()),
        Some(value) => {
            if sign < 0 {
                if value == min {
                    Err(())
                } else {
                    Ok((-value) as isize)
                }
            } else {
                Ok(value as isize)
            }
        },
    }
}

/// The value of a decimal literal.
pub fn dec_int(s: &str) -> (r: Result<isize, ()>)
    ensures
        match r {
            Ok(value) => literal_value(s@, 10, 0) == Some(value as int),
            Err(()) => literal_value(s@, 10, 0) is None,
        },
{
    literal(s, 10, 0)
}

/// The value of a binary literal, which starts with `0b`.
pub fn bin_int(s: &str) -> (r: Result<isize, ()>)
    ensures
        match r {
            Ok(value) => literal_value(s@, 2, 2) == Some(value as int),
            Err(()) => literal_value(s@, 2, 2) is None,
        },
{
    literal(s, 2, 2)
}

/// The value of a hexadecimal literal, which starts with `0x`.
pub fn hex_int(s: &str) -> (r: Result<isize, ()>)
    ensures
        match r {
            Ok(value) => literal_value(s@, 16, 2) == Some(value as int),
            Err(()) => literal_value(s@, 16, 2) is None,
        },
{
    literal(s, 16, 2)
}

/// The number of quotes at the start of `s`, counted from `from`.
pub open spec fn leading_quotes(s: Seq<char>, from: int) -> int
    decreases s.len() - from,
{
    if 0 <= from < s.len() && s[from] == '\'' {
        leading_quotes(s, from + 1)
    } else {
        from
    }
}

/// The index behind the last character of `s` that is no quote, looking down from `to`.
pub open spec fn trailing_quotes(s: Seq<char>, low: int, to: int) -> int
    decreases to,
{
    if 0 <= low < to <= s.len() && s[to - 1] == '\'' {
        trailing_quotes(s, low, to - 1)
    } else {
        to
    }
}

/// The text without the quotes at its two ends.
pub open spec fn unquoted(s: Seq<char>) -> Seq<char> {
    let start = leading_quotes(s, 0);
    let end = trailing_quotes(s, start, s.len() as int);
    s.subrange(start, end)
}

/// The character that the inside of a character literal stands for: the
/// character behind a backslash for the escapes of a quote, a double quote, a
/// backslash, a new line, a carriage return, a tab and a zero; else the first
/// character. `None` for an empty inside.
pub open spec fn char_value(inner: Seq<char>) -> Option<char> {
    if inner == seq!['\\', '\''] {
        Some('\'')
    } else if inner == seq!['\\', '"'] {
        Some('"')
    } else if inner == seq!['\\', '\\'] {
        Some('\\')
    } else if inner == seq!['\\', 'n'] {
        Some('\n')
    } else if inner == seq!['\\', 'r'] {
        Some('\r')
    } else if inner == seq!['\\', 't'] {
        Some('\t')
    } else if inner == seq!['\\', '0'] {
        Some('\0')
    } else if inner.len() > 0 {
        Some(inner[0])
    } else {
        None
    }
}

/// The code of the character.
fn code_of(c: char) -> (code: isize)
    ensures
        code == c as int,
{
    let code: u32 = c as u32;
    code as isize
}

/// The value of a character literal: the code of its character.
pub fn char_int(s: &str) -> (r: Result<isize, ()>)
    ensures
        match r {
            Ok(value) => char_value(unquoted(s@)) is Some && value == char_value(unquoted(s@))->0
                as int,
            Err(()) => char_value(unquoted(s@)) is None,
        },
{
    let chars = chars_of(s);
    let mut start: usize = 0;
    while start < chars.len() && chars[start] == '\''
        invariant
            start <= chars.len(),
            leading_quotes(chars@, 0) == leading_quotes(chars@, start as int),
        decreases chars.len() - start,
    {
        start += 1;
    }
    let mut end: usize = chars.len();
    while start < end && chars[end - 1] == '\''
        invariant
            start <= end <= chars.len(),
            trailing_quotes(chars@, start as int, chars@.len() as int) == trailing_quotes(
                chars@,
                start as int,
                end as int,
            ),
        decreases end,
    {
        end -= 1;
    }
    let ghost inner = chars@.subrange(start as int, end as int);
    assert(inner == unquoted(s@));
    let n = end - start;
    if n == 0 {
        return Err(());
    }
    let first = chars[start];
    assert(first == inner[0]);
    let c: char = if n == 2 && first == '\\' {
        let second = chars[start + 1];
        assert(second == inner[1]);
        assert(inner =~= seq![first, second]);
        if second == '\'' {
            '\''
        } else if second == '"' {
            '"'
        } else if second == '\\' {
            '\\'
        } else if second == 'n' {
            '\n'
        } else if second == 'r' {
            '\r'
        } else if second == 't' {
            '\t'
        } else if second == '0' {
            '\0'
        } else {
            first
        }
    } else {
        first
    };
    assert(char_value(inner) == Some(c));
    Ok(code_of(c))
}

/// The word of a character of a string literal. Behind a backslash `n`, `r`,
/// `t` and `0` stand for a new line, a carriage return, a tab and a zero;
/// any other character stands for itself, as the low sixteen bits of its code.
pub open spec fn word_of(c: char, escaped: bool) -> u16 {
    if escaped && c == 'n' {
        10
    } else if escaped && c == 'r' {
        13
    } else if escaped && c == 't' {
        9
    } else if escaped && c == '0' {
        0
    } else {
        (c as u32 % 0x10000) as u16
    }
}

/// The word of a character of a string literal.
pub fn char_int_single(c: char, escaped: bool) -> (r: Result<u16, ()>)
    ensures
        r == Ok::<u16, ()>(word_of(c, escaped)),
{
    if escaped && c == 'n' {
        Ok(10)
    } else if escaped && c == 'r' {
        Ok(13)
    } else if escaped && c == 't' {
        Ok(9)
    } else if escaped && c == '0' {
        Ok(0)
    } else {
        Ok((c as u32 % 0x10000) as u16)
    }
}

/// The words of the characters of `cs` from index `i` on, where `escaped`
/// says whether the character before was a backslash that still waits for
/// its character.
pub open spec fn words_from(cs: Seq<char>, i: int, escaped: bool) -> Seq<u16>
    decreases cs.len() - i,
{
    if i < 0 || i >= cs.len() {
        Seq::empty()
    } else if escaped {
        seq![word_of(cs[i], true)] + words_from(cs, i + 1, false)
    } else if cs[i] == '\\' {
        words_from(cs, i + 1, true)
    } else {
        seq![word_of(cs[i], false)] + words_from(cs, i + 1, false)
    }
}

/// The words of a string literal: those of the characters between its first
/// and its last character, and a zero at the end. `None` for a text of fewer
/// than two characters.
pub open spec fn string_words(s: Seq<char>) -> Option<Seq<u16>> {
    if s.len() < 2 {
        None
    } else {
        Some(words_from(s.subrange(1, s.len() - 1), 0, false).push(0))
    }
}

/// The words of a string literal.
pub fn string_int_arr(s: &str) -> (r: Result<Vec<u16>, ()>)
    ensures
        match r {
            Ok(words) => string_words(s@) == Some(words@),
            Err(()) => string_words(s@) is None,
        },
{
    let chars = chars_of(s);
    if chars.len() < 2 {
        return Err(());
    }
    let ghost inner = chars@.subrange(1, chars@.len() - 1);
    let mut string: Vec<u16> = Vec::new();
    let mut escaped = false;
    let mut i: usize = 1;
    while i < chars.len() - 1
        invariant
            1 <= i <= chars.len() - 1,
            inner == chars@.subrange(1, chars@.len() - 1),
            string@ + words_from(inner, i - 1, escaped) == words_from(inner, 0, false),
        decreases chars.len() - i,
    {
        let c = chars[i];
        assert(c == inner[i - 1]);
        let ghost before = string@;
        if escaped {
            match char_int_single(c, true) {
                Ok(word) => {
                    string.push(word);
                },
                Err(()) => {
                    return Err(());
                },
            }
            escaped = false;
            assert(string@ + words_from(inner, i as int, false) =~= before + words_from(
                inner,
                i - 1,
                true,
            ));
        } else if c == '\\' {
            escaped = true;
        } else {
            match char_int_single(c, false) {
                Ok(word) => {
                    string.push(word);
                },
                Err(()) => {
                    return Err(());
                },
            }
            assert(string@ + words_from(inner, i as int, false) =~= before + words_from(
                inner,
                i - 1,
                false,
            ));
        }
        i += 1;
    }
    assert(string@ =~= words_from(inner, 0, false));
    string.push(0);
    Ok(string)
}

} // verus!
