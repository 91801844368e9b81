//! Small string helpers: slice equality, ASCII lowercasing, and decimal
//! reading and writing of `u32` values.

use vstd::prelude::*;
use vstd::string::StrSliceExecFns;
use vstd::string::StringExecFns;

verus! {

/// Appends one character to a string.
/// Relies on std's `String::push`: appends the given char to the end.
pub assume_specification[ String::push ](s: &mut String, c: char)
    ensures
        final(s)@ == old(s)@.push(c),
;

/// True exactly when the two slices hold the same characters.
pub fn str_eq(a: &str, b: &str) -> (r: bool)
    ensures
        r == (a@ == b@),
{
    let sa = String::from_str(a);
    let sb = String::from_str(b);
    sa.eq(&sb)
}

/// ASCII lowercasing of a single character; anything outside 'A'..'Z' is kept.
pub open spec fn spec_lower_char(c: char) -> char {
    match c {
        'A' => 'a',
        'B' => 'b',
        'C' => 'c',
        'D' => 'd',
        'E' => 'e',
        'F' => 'f',
        'G' => 'g',
        'H' => 'h',
        'I' => 'i',
        'J' => 'j',
        'K' => 'k',
        'L' => 'l',
        'M' => 'm',
        'N' => 'n',
        'O' => 'o',
        'P' => 'p',
        'Q' => 'q',
        'R' => 'r',
        'S' => 's',
        'T' => 't',
        'U' => 'u',
        'V' => 'v',
        'W' => 'w',
        'X' => 'x',
        'Y' => 'y',
        'Z' => 'z',
        _ => c,
    }
}

pub open spec fn spec_lower(s: Seq<char>) -> Seq<char> {
    s.map_values(|c: char| spec_lower_char(c))
}

fn lower_char(c: char) -> (r: char)
    ensures
        r == spec_lower_char(c),
{
    match c {
        'A' => 'a',
        'B' => 'b',
        'C' => 'c',
        'D' => 'd',
        'E' => 'e',
        'F' => 'f',
        'G' => 'g',
        'H' => 'h',
        'I' => 'i',
        'J' => 'j',
        'K' => 'k',
        'L' => 'l',
        'M' => 'm',
        'N' => 'n',
        'O' => 'o',
        'P' => 'p',
        'Q' => 'q',
        'R' => 'r',
        'S' => 's',
        'T' => 't',
        'U' => 'u',
        'V' => 'v',
        'W' => 'w',
        'X' => 'x',
        'Y' => 'y',
        'Z' => 'z',
        _ => c,
    }
}

/// ASCII-lowercases a whole slice, character by character.
pub fn ascii_lower(s: &str) -> (r: String)
    ensures
        r@ == spec_lower(s@),
{
    let len = s.unicode_len();
    let mut out = String::new();
    let mut i: usize = 0;
    while i < len
        invariant
            i <= len,
            len == s@.len(),
            out@ == spec_lower(s@.take(i as int)),
        decreases len - i,
    {
        let c = s.get_char(i);
        out.push(lower_char(c));
        proof {
            assert(spec_lower(s@.take(i + 1)) =~= spec_lower(s@.take(i as int)).push(
                spec_lower_char(s@[i as int]),
            ));
        }
        i = i + 1;
    }
    proof {
        assert(s@.take(len as int) =~= s@);
    }
    out
}

pub open spec fn spec_is_digit(c: char) -> bool {
    48 <= c as int <= 57
}

pub open spec fn spec_all_digits(s: Seq<char>) -> bool {
    forall|i: int| 0 <= i < s.len() ==> spec_is_digit(#[trigger] s[i])
}

pub open spec fn spec_digit_char(d: int) -> char {
    if d == 0 {
        '0'
    } else if d == 1 {
        '1'
    } else if d == 2 {
        '2'
    } else if d == 3 {
        '3'
    } else if d == 4 {
        '4'
    } else if d == 5 {
        '5'
    } else if d == 6 {
        '6'
    } else if d == 7 {
        '7'
    } else if d == 8 {
        '8'
    } else {
        '9'
    }
}

/// The decimal rendering of a non-negative integer, most significant digit
/// first, with no sign and no leading zero (except for zero itself).
pub open spec fn spec_u32_dec(n: int) -> Seq<char>
    decreases n,
{
    if n < 10 {
        seq![spec_digit_char(n)]
    } else {
        spec_u32_dec(n / 10).push(spec_digit_char(n % 10))
    }
}

/// The number a digit string stands for, read left to right.
pub open spec fn spec_dec_value(s: Seq<char>) -> int
    decreases s.len(),
{
    if s.len() == 0 {
        0
    } else {
        spec_dec_value(s.drop_last()) * 10 + (s.last() as int - 48)
    }
}

/// What reading a `u32` out of a slice yields: the value when the slice is a
/// non-empty run of decimal digits whose value fits, nothing otherwise.
pub open spec fn spec_parse_u32(s: Seq<char>) -> Option<u32> {
    if s.len() > 0 && spec_all_digits(s) && spec_dec_value(s) <= u32::MAX {
        Some(spec_dec_value(s) as u32)
    } else {
        None
    }
}

fn digit_char(d: u32) -> (c: char)
    requires
        d < 10,
    ensures
        c == spec_digit_char(d as int),
{
    match d {
        0 => '0',
        1 => '1',
        2 => '2',
        3 => '3',
        4 => '4',
        5 => '5',
        6 => '6',
        7 => '7',
        8 => '8',
        _ => '9',
    }
}

fn push_dec(out: &mut String, n: u32)
    ensures
        final(out)@ == old(out)@ + spec_u32_dec(n as int),
    decreases n,
{
    if n < 10 {
        out.push(digit_char(n));
        proof {
            assert(final(out)@ =~= old(out)@ + spec_u32_dec(n as int));
        }
    } else {
        push_dec(out, n / 10);
        out.push(digit_char(n % 10));
        proof {
            assert(final(out)@ =~= old(out)@ + spec_u32_dec(n as int));
        }
    }
}

/// Renders a `u32` in decimal.
pub fn u32_dec(n: u32) -> (r: String)
    ensures
        r@ == spec_u32_dec(n as int),
{
    let mut out = String::new();
    push_dec(&mut out, n);
    proof {
        assert(out@ =~= spec_u32_dec(n as int));
    }
    out
}

fn char_digit(c: char) -> (r: Option<u32>)
    ensures
        match r {
            Some(d) => spec_is_digit(c) && d as int == c as int - 48,
            None => !spec_is_digit(c),
        },
{
    match c {
        '0' => Some(0),
        '1' => Some(1),
        '2' => Some(2),
        '3' => Some(3),
        '4' => Some(4),
        '5' => Some(5),
        '6' => Some(6),
        '7' => Some(7),
        '8' => Some(8),
        '9' => Some(9),
        _ => None,
    }
}

proof fn lemma_dec_value_nonneg(s: Seq<char>)
    requires
        spec_all_digits(s),
    ensures
        spec_dec_value(s) >= 0,
    decreases s.len(),
{
    if s.len() > 0 {
        assert(spec_all_digits(s.drop_last()));
        lemma_dec_value_nonneg(s.drop_last());
    }
}

/// A digit string is worth at least as much as any of its prefixes.
proof fn lemma_dec_prefix_le(s: Seq<char>, j: int)
    requires
        0 <= j <= s.len(),
        spec_all_digits(s),
    ensures
        spec_dec_value(s.take(j)) <= spec_dec_value(s),
    decreases s.len() - j,
{
    if j < s.len() {
        lemma_dec_prefix_le(s, j + 1);
        assert(s.take(j + 1).drop_last() =~= s.take(j));
        assert(spec_all_digits(s.take(j)));
        lemma_dec_value_nonneg(s.take(j));
        assert(spec_dec_value(s.take(j + 1)) == spec_dec_value(s.take(j)) * 10 + (s[j] as int
            - 48));
    } else {
        assert(s.take(j) =~= s);
    }
}

/// Reads a `u32` out of a decimal digit string, as `spec_parse_u32` says.
pub fn parse_u32(s: &str) -> (r: Option<u32>)
    ensures
        r == spec_parse_u32(s@),
{
    let len = s.unicode_len();
    if len == 0 {
        return None;
    }
    let mut acc: u64 = 0;
    let mut i: usize = 0;
    while i < len
        invariant
            0 < len,
            len == s@.len(),
            i <= len,
            spec_all_digits(s@.take(i as int)),
            acc as int == spec_dec_value(s@.take(i as int)),
            acc <= u32::MAX,
        decreases len - i,
    {
        let c = s.get_char(i);
        match char_digit(c) {
            None => {
                return None;
            },
            Some(d) => {
                let next: u64 = acc * 10 + d as u64;
                proof {
                    assert(s@.take(i + 1).drop_last() =~= s@.take(i as int));
                    assert(spec_dec_value(s@.take(i + 1)) == next as int);
                    assert(spec_all_digits(s@.take(i + 1)));
                }
                if next > 0xFFFF_FFFF {
                    proof {
                        if spec_all_digits(s@) {
                            lemma_dec_prefix_le(s@, i + 1);
                        }
                    }
                    return None;
                }
                acc = next;
            },
        }
        i = i + 1;
    }
    proof {
        assert(s@.take(len as int) =~= s@);
    }
    Some(acc as u32)
}

} // verus!
