//! Parsing of one line of textual input for the `,` instruction: the line is
//! trimmed of surrounding whitespace and read as an unsigned decimal number.
//! Text that is not a plain decimal number is `NotANumber`; a number over 255
//! is `OutOfRange`. Both are reported to the caller, never a crash.

use vstd::prelude::*;

verus! {

/// Failure of the `,` instruction's input parsing.
#[derive(Clone, Copy, Debug, PartialEq, Eq, Structural)]
pub enum InputError {
    NotANumber,
    OutOfRange,
}

/// ASCII whitespace, trimmed from both ends of an input line.
pub open spec fn is_space(c: char) -> bool {
    c == ' ' || c == '\t' || c == '\n' || c == '\r'
}

/// A decimal digit.
pub open spec fn is_digit(c: char) -> bool {
    48 <= c as u32 <= 57
}

/// The numeric value of one decimal digit.
pub open spec fn digit_val(c: char) -> int {
    c as u32 - 48
}

/// `s` without its leading whitespace.
pub open spec fn drop_leading_spaces(s: Seq<char>) -> Seq<char>
    decreases s.len(),
{
    if s.len() > 0 && is_space(s[0]) {
        drop_leading_spaces(s.drop_first())
    } else {
        s
    }
}

/// `s` without its trailing whitespace.
pub open spec fn drop_trailing_spaces(s: Seq<char>) -> Seq<char>
    decreases s.len(),
{
    if s.len() > 0 && is_space(s.last()) {
        drop_trailing_spaces(s.drop_last())
    } else {
        s
    }
}

/// `s` without leading and trailing whitespace.
pub open spec fn trimmed(s: Seq<char>) -> Seq<char> {
    drop_trailing_spaces(drop_leading_spaces(s))
}

/// Every character of `s` is a decimal digit.
pub open spec fn all_digits(s: Seq<char>) -> bool {
    forall|k: int| 0 <= k < s.len() ==> is_digit(#[trigger] s[k])
}

/// The value of a digit string read as a decimal number.
pub open spec fn digits_value(s: Seq<char>) -> int
    decreases s.len(),
{
    if s.len() == 0 {
        0
    } else {
        digits_value(s.drop_last()) * 10 + digit_val(s.last())
    }
}

/// What one input line means to the `,` instruction: the trimmed line must
/// be a nonempty string of decimal digits whose value fits in a byte.
pub open spec fn parse_u8(line: Seq<char>) -> Result<u8, InputError> {
    let t = trimmed(line);
    if t.len() == 0 || !all_digits(t) {
        Err(InputError::NotANumber)
    } else if digits_value(t) > 255 {
        Err(InputError::OutOfRange)
    } else {
        Ok(digits_value(t) as u8)
    }
}

proof fn lemma_drop_leading(s: Seq<char>, a: int)
    requires
        0 <= a <= s.len(),
        forall|k: int| 0 <= k < a ==> is_space(#[trigger] s[k]),
        a < s.len() ==> !is_space(s[a]),
    ensures
        drop_leading_spaces(s) == s.subrange(a, s.len() as int),
    decreases a,
{
    if a == 0 {
        assert(s.subrange(0, s.len() as int) =~= s);
    } else {
        lemma_drop_leading(s.drop_first(), a - 1);
        assert(s.drop_first().subrange(a - 1, s.drop_first().len() as int) =~= s.subrange(
            a,
            s.len() as int,
        ));
    }
}

proof fn lemma_drop_trailing(s: Seq<char>, b: int)
    requires
        0 <= b <= s.len(),
        forall|k: int| b <= k < s.len() ==> is_space(#[trigger] s[k]),
        b > 0 ==> !is_space(s[b - 1]),
    ensures
        drop_trailing_spaces(s) == s.subrange(0, b),
    decreases s.len(),
{
    if b == s.len() {
        if s.len() > 0 {
            assert(s.subrange(0, b) =~= s);
        } else {
            assert(s.subrange(0, 0) =~= s);
        }
    } else {
        lemma_drop_trailing(s.drop_last(), b);
        assert(s.drop_last().subrange(0, b) =~= s.subrange(0, b));
    }
}

fn space(c: char) -> (r: bool)
    ensures
        r == is_space(c),
{
    c == ' ' || c == '\t' || c == '\n' || c == '\r'
}

fn digit(c: char) -> (r: bool)
    ensures
        r == is_digit(c),
{
    let u = c as u32;
    48 <= u && u <= 57
}

/// Reads one line of input text as an unsigned 8-bit integer, exactly as
/// `parse_u8` describes; returns the error it names on every rejected line.
pub fn parse_input_line(line: &Vec<char>) -> (r: Result<u8, InputError>)
    ensures
        r == parse_u8(line@),
{
    let n: usize = line.len();
    let mut a: usize = 0;
    while a < n && space(line[a])
        invariant
            a <= n,
            n == line@.len(),
            forall|k: int| 0 <= k < a ==> is_space(#[trigger] line@[k]),
        decreases n - a,
    {
        a += 1;
    }
    proof {
        lemma_drop_leading(line@, a as int);
    }
    if a == n {
        // Only whitespace: the trimmed line is empty.
        proof {
            lemma_drop_trailing(line@.subrange(a as int, n as int), 0);
            assert(trimmed(line@).len() == 0);
        }
        return Err(InputError::NotANumber);
    }
    let mut b: usize = n;
    while b > a && space(line[b - 1])
        invariant
            a <= b <= n,
            n == line@.len(),
            forall|k: int| b <= k < n ==> is_space(#[trigger] line@[k]),
        decreases b,
    {
        b -= 1;
    }
    // The first non-space character bounds the trailing scan away from `a`.
    proof {
        if b == a {
            assert(is_space(line@[a as int]));
        }
        lemma_drop_trailing(line@.subrange(a as int, n as int), b - a);
        assert(line@.subrange(a as int, n as int).subrange(0, b - a) =~= line@.subrange(
            a as int,
            b as int,
        ));
        assert(trimmed(line@) == line@.subrange(a as int, b as int));
    }
    let ghost t = trimmed(line@);
    let mut k: usize = a;
    let mut acc: u32 = 0;
    while k < b
        invariant
            a <= k <= b <= n,
            n == line@.len(),
            a < b,
            t == trimmed(line@),
            t == line@.subrange(a as int, b as int),
            all_digits(line@.subrange(a as int, k as int)),
            digits_value(line@.subrange(a as int, k as int)) <= 255 ==> acc == digits_value(
                line@.subrange(a as int, k as int),
            ),
            digits_value(line@.subrange(a as int, k as int)) > 255 ==> acc == 256,
        decreases b - k,
    {
        let ghost pre = line@.subrange(a as int, k as int);
        let c = line[k];
        if !digit(c) {
            proof {
                assert(t[k - a] == line@[k as int]);
                assert(!all_digits(t));
            }
            return Err(InputError::NotANumber);
        }
        let d: u32 = c as u32 - 48;
        acc = acc * 10 + d;
        if acc > 255 {
            acc = 256;
        }
        proof {
            let pre2 = line@.subrange(a as int, k + 1);
            assert(pre2.drop_last() =~= pre);
            assert(pre2.last() == line@[k as int]);
            assert(digits_value(pre2) == digits_value(pre) * 10 + digit_val(line@[k as int]));
        }
        k += 1;
    }
    proof {
        assert(line@.subrange(a as int, b as int) =~= line@.subrange(a as int, k as int));
        assert(all_digits(t));
    }
    if acc > 255 {
        return Err(InputError::OutOfRange);
    }
    Ok(acc as u8)
}

} // verus!
