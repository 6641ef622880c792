//! Building text: numbers in decimal and hexadecimal, and joining strings.

use vstd::prelude::*;
use vstd::std_specs::iter::IteratorSpec;
use vstd::string::StringExecFns;

verus! {

/// `String::push` appends the one character to the end of the string.
pub assume_specification[ String::push ](s: &mut String, c: char)
    ensures
        final(s)@ == old(s)@.push(c),
;

/// The character that writes the digit `d` in a base up to sixteen, letters in upper case.
pub open spec fn digit_char(d: int) -> char {
    if d < 10 {
        ((48 + d) as u8) as char
    } else {
        ((55 + d) as u8) as char
    }
}

/// The decimal digits of `n`, most significant first, without leading zeros.
pub open spec fn decimal_digits(n: nat) -> Seq<char>
    decreases n,
{
    if n < 10 {
        seq![digit_char(n as int)]
    } else {
        decimal_digits(n / 10).push(digit_char((n % 10) as int))
    }
}

/// An integer in decimal, with a minus sign in front of a negative one.
pub open spec fn signed_decimal(i: int) -> Seq<char> {
    if i < 0 {
        seq!['-'] + decimal_digits((-i) as nat)
    } else {
        decimal_digits(i as nat)
    }
}

/// A 16-bit word as `0x` and four hexadecimal digits in upper case.
pub open spec fn hex_word(w: u16) -> Seq<char> {
    seq![
        '0',
        'x',
        digit_char((w as int / 4096) % 16),
        digit_char((w as int / 256) % 16),
        digit_char((w as int / 16) % 16),
        digit_char(w as int % 16),
    ]
}

/// The character that writes the digit `d`.
pub fn digit(d: u8) -> (c: char)
    requires
        d < 16,
    ensures
        c == digit_char(d as int),
{
    if d < 10 {
        (48u8 + d) as char
    } else {
        (55u8 + d) as char
    }
}

/// Appends the decimal digits of `n` to `out`.
pub fn push_decimal(out: &mut String, n: usize)
    ensures
        final(out)@ == old(out)@ + decimal_digits(n as nat),
    decreases n,
{
    if n < 10 {
        out.push(digit(n as u8));
        assert(old(out)@.push(digit_char(n as int)) =~= old(out)@ + decimal_digits(n as nat));
    } else {
        push_decimal(out, n / 10);
        out.push(digit((n % 10) as u8));
        assert((old(out)@ + decimal_digits((n / 10) as nat)).push(digit_char((n % 10) as int))
            =~= old(out)@ + decimal_digits(n as nat));
    }
}

/// Appends `i` in decimal to `out`.
pub fn push_signed_decimal(out: &mut String, i: isize)
    ensures
        final(out)@ == old(out)@ + signed_decimal(i as int),
{
    if i < 0 {
        out.push('-');
        let magnitude: usize = if i == isize::MIN {
            (isize::MAX as usize) + 1
        } else {
            (-i) as usize
        };
        push_decimal(out, magnitude);
        assert(old(out)@.push('-') + decimal_digits((-i) as nat) =~= old(out)@ + signed_decimal(
            i as int,
        ));
    } else {
        push_decimal(out, i as usize);
    }
}

/// Appends `w` as `0x` and four hexadecimal digits to `out`.
pub fn push_hex_word(out: &mut String, w: u16)
    ensures
        final(out)@ == old(out)@ + hex_word(w),
{
    out.push('0');
    out.push('x');
    out.push(digit(((w / 4096) % 16) as u8));
    out.push(digit(((w / 256) % 16) as u8));
    out.push(digit(((w / 16) % 16) as u8));
    out.push(digit((w % 16) as u8));
    assert(final(out)@ =~= old(out)@ + hex_word(w));
}

/// The decimal text of `n`.
pub fn decimal(n: usize) -> (r: String)
    ensures
        r@ == decimal_digits(n as nat),
{
    let mut r = String::new();
    push_decimal(&mut r, n);
    assert(Seq::<char>::empty() + decimal_digits(n as nat) =~= decimal_digits(n as nat));
    r
}

/// The two strings joined, `a` first.
pub fn join(a: &str, b: &str) -> (r: String)
    ensures
        r@ == a@ + b@,
{
    let mut r = String::from_str(a);
    r.append(b);
    r
}


/// The characters of `s`.
pub fn chars_of(s: &str) -> (v: Vec<char>)
    ensures
        v@ == s@,
{
    broadcast use vstd::string::group_string_axioms;

    let mut v: Vec<char> = Vec::new();
    for c in it: s.chars()
        invariant
            it.seq() == s@,
            v@ == it.seq().take(it.index() as int),
    {
        v.push(c);
        assert(v@ =~= it.seq().take(it.index() + 1));
    }
    assert(s@.take(s@.len() as int) =~= s@);
    v
}

/// The string of the characters.
pub fn string_of(chars: &Vec<char>) -> (s: String)
    ensures
        s@ == chars@,
{
    let mut s = String::new();
    let mut i: usize = 0;
    while i < chars.len()
        invariant
            i <= chars.len(),
            s@ == chars@.take(i as int),
        decreases chars.len() - i,
    {
        s.push(chars[i]);
        assert(s@ =~= chars@.take(i + 1));
        i += 1;
    }
    assert(chars@.take(chars.len() as int) =~= chars@);
    s
}

/// The number that the character stands for as a digit: `0` to `9` are zero
/// to nine, and the letters, in either case, are ten to thirty-five.
pub open spec fn digit_value(c: char) -> Option<int> {
    if '0' <= c <= '9' {
        Some(c as int - 48)
    } else if 'a' <= c <= 'z' {
        Some(c as int - 87)
    } else if 'A' <= c <= 'Z' {
        Some(c as int - 55)
    } else {
        None
    }
}

/// The number that the first `n` characters write in the base `radix`, or
/// `None` where one of them is no digit of that base.
pub open spec fn digits_value(s: Seq<char>, radix: int, n: nat) -> Option<int>
    decreases n,
{
    if n == 0 || n > s.len() {
        Some(0)
    } else {
        match (digits_value(s, radix, (n - 1) as nat), digit_value(s[n - 1])) {
            (Some(high), Some(d)) => if d < radix {
                Some(high * radix + d)
            } else {
                None
            },
            _ => None,
        }
    }
}

/// The integer that `s` writes in the base `radix`: an optional sign and
/// then at least one digit, and nothing else. `None` for anything else, and
/// for a number outside `min` to `max`.
pub open spec fn parsed_int(s: Seq<char>, radix: int, min: int, max: int) -> Option<int> {
    let negative = s.len() > 0 && s[0] == '-';
    let signed = s.len() > 0 && (s[0] == '-' || s[0] == '+');
    let body = if signed {
        s.skip(1)
    } else {
        s
    };
    if body.len() == 0 {
        None
    } else {
        match digits_value(body, radix, body.len()) {
            None => None,
            Some(magnitude) => {
                let value = if negative {
                    -magnitude
                } else {
                    magnitude
                };
                if min <= value <= max {
                    Some(value)
                } else {
                    None
                }
            },
        }
    }
}

/// A longer prefix writes no smaller a number, and is no number where a shorter one is none.
pub proof fn lemma_digits_grow(s: Seq<char>, radix: int, n: nat, m: nat)
    requires
        2 <= radix,
        n <= m <= s.len(),
    ensures
        digits_value(s, radix, n) is None ==> digits_value(s, radix, m) is None,
        digits_value(s, radix, n) is Some ==> digits_value(s, radix, n)->0 >= 0,
        digits_value(s, radix, n) is Some && digits_value(s, radix, m) is Some ==> digits_value(
            s,
            radix,
            m,
        )->0 >= digits_value(s, radix, n)->0,
    decreases m,
{
    if n > 0 {
        lemma_digits_grow(s, radix, (n - 1) as nat, (n - 1) as nat);
    }
    if n < m {
        lemma_digits_grow(s, radix, n, (m - 1) as nat);
        lemma_digits_grow(s, radix, (m - 1) as nat, (m - 1) as nat);
        if digits_value(s, radix, m) is Some {
            let high = digits_value(s, radix, (m - 1) as nat)->0;
            assert(high * radix >= high) by (nonlinear_arith)
                requires
                    high >= 0,
                    radix >= 2,
            ;
        }
    }
}

/// The value of the character as a digit of the base `radix`.
pub fn digit_of(c: char, radix: u32) -> (r: Option<u32>)
    requires
        2 <= radix <= 36,
    ensures
        match r {
            Some(d) => digit_value(c) == Some(d as int) && d < radix,
            None => digit_value(c) is None || digit_value(c)->0 >= radix,
        },
{
    let code = c as u32;
    let d: u32 = if '0' <= c && c <= '9' {
        code - 48
    } else if 'a' <= c && c <= 'z' {
        code - 87
    } else if 'A' <= c && c <= 'Z' {
        code - 55
    } else {
        return None;
    };
    if d < radix {
        Some(d)
    } else {
        None
    }
}

/// Parses `chars` as an integer in the base `radix` that lies between `min` and `max`.
pub fn parse_int(chars: &Vec<char>, radix: u32, min: i64, max: i64) -> (r: Option<i64>)
    requires
        2 <= radix <= 36,
        min <= 0 <= max,
        min >= -0x8000_0000_0000_0000,
        max <= 0x7FFF_FFFF_FFFF_FFFF,
    ensures
        r == match parsed_int(chars@, radix as int, min as int, max as int) {
            Some(value) => Some(value as i64),
            None => None,
        },
{
    let n = chars.len();
    let negative = n > 0 && chars[0] == '-';
    let start: usize = if n > 0 && (chars[0] == '-' || chars[0] == '+') {
        1
    } else {
        0
    };
    if start == n {
        return None;
    }
    let ghost body = if start == 1 {
        chars@.skip(1)
    } else {
        chars@
    };
    assert(chars@.skip(0) =~= chars@);
    let limit: u128 = if negative {
        (-(min as i128)) as u128
    } else {
        max as u128
    };
    let mut magnitude: u128 = 0;
    let mut i: usize = start;
    while i < n
        invariant
            start <= i <= n,
            n == chars@.len(),
            body == chars@.skip(start as int),
            body == if start == 1 {
                chars@.skip(1)
            } else {
                chars@
            },
            negative == (n > 0 && chars@[0] == '-'),
            start == if n > 0 && (chars@[0] == '-' || chars@[0] == '+') {
                1int
            } else {
                0int
            },
            limit as int == if negative {
                -(min as int)
            } else {
                max as int
            },
            min <= 0 <= max,
            2 <= radix <= 36,
            limit <= 0x8000_0000_0000_0000,
            magnitude <= limit,
            digits_value(body, radix as int, (i - start) as nat) == Some(magnitude as int),
        decreases n - i,
    {
        assert(body[i - start] == chars@[i as int]);
        match digit_of(chars[i], radix) {
            None => {
                proof {
                    assert(body.len() == n - start);
                    assert(digits_value(body, radix as int, (i - start + 1) as nat) is None);
                    lemma_digits_grow(body, radix as int, (i - start + 1) as nat, body.len());
                }
                return None;
            },
            Some(d) => {
                assert(magnitude * radix + d <= 0x8000_0000_0000_0000 * 36 + 36) by (nonlinear_arith)
                    requires
                        magnitude <= 0x8000_0000_0000_0000,
                        radix <= 36,
                        d <= 36,
                ;
                let next: u128 = magnitude * (radix as u128) + (d as u128);
                if next > limit {
                    proof {
                        assert(body.len() == n - start);
                        assert(digits_value(body, radix as int, (i - start + 1) as nat) == Some(
                            next as int,
                        ));
                        lemma_digits_grow(body, radix as int, (i - start + 1) as nat, body.len());
                    }
                    return None;
                }
                magnitude = next;
            },
        }
        i += 1;
    }
    assert(body.len() == n - start);
    if negative {
        Some((-(magnitude as i128)) as i64)
    } else {
        Some(magnitude as i64)
    }
}


/// The value of the first `n` digits does not depend on what follows them.
pub proof fn lemma_digits_prefix(s: Seq<char>, t: Seq<char>, radix: int, n: nat)
    requires
        n <= s.len(),
        n <= t.len(),
        forall|i: int| 0 <= i < n ==> s[i] == t[i],
    ensures
        digits_value(s, radix, n) == digits_value(t, radix, n),
    decreases n,
{
    if n > 0 {
        lemma_digits_prefix(s, t, radix, (n - 1) as nat);
    }
}

/// A number that is written in decimal and read again is the number.
pub proof fn lemma_decimal_round_trip(n: nat)
    ensures
        decimal_digits(n).len() >= 1,
        digits_value(decimal_digits(n), 10, decimal_digits(n).len()) == Some(n as int),
    decreases n,
{
    let digits = decimal_digits(n);
    if n < 10 {
        assert(digit_value(digit_char(n as int)) == Some(n as int));
        assert(digits_value(digits, 10, 0) == Some(0int));
    } else {
        let high = decimal_digits(n / 10);
        lemma_decimal_round_trip(n / 10);
        assert(digit_value(digit_char((n % 10) as int)) == Some((n % 10) as int));
        lemma_digits_prefix(digits, high, 10, high.len());
        assert(digits[digits.len() - 1] == digit_char((n % 10) as int));
    }
}

/// Two numbers that are written alike in decimal are one number.
pub proof fn lemma_decimal_differs(n: nat, m: nat)
    requires
        n != m,
    ensures
        decimal_digits(n) != decimal_digits(m),
{
    lemma_decimal_round_trip(n);
    lemma_decimal_round_trip(m);
}

} // verus!
