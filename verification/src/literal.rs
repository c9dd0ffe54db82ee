//! The grammar of a decimal floating-point literal.
//!
//! A text is such a literal when it reads, with an optional sign in front,
//! as one of the words `inf`, `infinity` and `nan` in any mix of upper and
//! lower case, or as a number: digits with at most one point among them, at
//! least one digit in all, and optionally an exponent, which is `e` or `E`,
//! an optional sign and at least one digit. This is the grammar by which the
//! standard library decides whether a string parses as a floating-point
//! number.

use vstd::prelude::*;
use vstd::slice::slice_subrange;
use crate::chars::chars_of;

verus! {

pub open spec fn is_digit(c: char) -> bool {
    '0' <= c && c <= '9'
}

pub open spec fn is_sign(c: char) -> bool {
    c == '+' || c == '-'
}

/// Where the run of digits that starts at `from` ends: the index of the
/// first character at or after `from` that is no digit, or the length of `s`.
pub open spec fn digits_end(s: Seq<char>, from: int) -> int
    decreases s.len() - from,
{
    if 0 <= from < s.len() && is_digit(s[from]) {
        digits_end(s, from + 1)
    } else {
        from
    }
}

/// `c` is the letter given in its two cases.
pub open spec fn is_letter(c: char, lower: char, upper: char) -> bool {
    c == lower || c == upper
}

/// `inf`, in any case.
pub open spec fn is_inf_word(s: Seq<char>) -> bool {
    &&& s.len() == 3
    &&& is_letter(s[0], 'i', 'I')
    &&& is_letter(s[1], 'n', 'N')
    &&& is_letter(s[2], 'f', 'F')
}

/// `infinity`, in any case.
pub open spec fn is_infinity_word(s: Seq<char>) -> bool {
    &&& s.len() == 8
    &&& is_inf_word(s.subrange(0, 3))
    &&& is_letter(s[3], 'i', 'I')
    &&& is_letter(s[4], 'n', 'N')
    &&& is_letter(s[5], 'i', 'I')
    &&& is_letter(s[6], 't', 'T')
    &&& is_letter(s[7], 'y', 'Y')
}

/// `nan`, in any case.
pub open spec fn is_nan_word(s: Seq<char>) -> bool {
    &&& s.len() == 3
    &&& is_letter(s[0], 'n', 'N')
    &&& is_letter(s[1], 'a', 'A')
    &&& is_letter(s[2], 'n', 'N')
}

/// One of the words that stand for a value that is no number.
pub open spec fn is_special_word(s: Seq<char>) -> bool {
    is_inf_word(s) || is_infinity_word(s) || is_nan_word(s)
}

/// An exponent: `e` or `E`, an optional sign, and digits up to the end.
pub open spec fn is_exponent(s: Seq<char>) -> bool {
    &&& s.len() >= 2
    &&& is_letter(s[0], 'e', 'E')
    &&& {
        let first = if is_sign(s[1]) { 2int } else { 1int };
        first < s.len() && digits_end(s, first) == s.len()
    }
}

/// Where the mantissa of an unsigned number ends: after the digits before
/// the point, the point if there is one, and the digits after it.
pub open spec fn mantissa_end(s: Seq<char>) -> int {
    let whole = digits_end(s, 0);
    if whole < s.len() && s[whole] == '.' {
        digits_end(s, whole + 1)
    } else {
        whole
    }
}

/// How many digits the mantissa of an unsigned number holds.
pub open spec fn mantissa_digits(s: Seq<char>) -> int {
    let whole = digits_end(s, 0);
    if whole < s.len() && s[whole] == '.' {
        mantissa_end(s) - 1
    } else {
        whole
    }
}

/// An unsigned number: a mantissa with at least one digit, then nothing or
/// an exponent.
pub open spec fn is_number(s: Seq<char>) -> bool {
    &&& mantissa_digits(s) > 0
    &&& (mantissa_end(s) == s.len() || is_exponent(s.subrange(mantissa_end(s), s.len() as int)))
}

/// `s` without the sign in front of it, if it has one.
pub open spec fn unsigned_part(s: Seq<char>) -> Seq<char> {
    if s.len() > 0 && is_sign(s[0]) {
        s.subrange(1, s.len() as int)
    } else {
        s
    }
}

/// `s` is a floating-point literal.
pub open spec fn is_float_text(s: Seq<char>) -> bool {
    is_special_word(unsigned_part(s)) || is_number(unsigned_part(s))
}

/// The run of digits that starts at `from` lies within `s`, and holds digits only.
pub proof fn lemma_digits_end(s: Seq<char>, from: int)
    requires
        0 <= from <= s.len(),
    ensures
        from <= digits_end(s, from) <= s.len(),
        forall|k: int| from <= k < digits_end(s, from) ==> is_digit(#[trigger] s[k]),
        digits_end(s, from) < s.len() ==> !is_digit(s[digits_end(s, from)]),
    decreases s.len() - from,
{
    if from < s.len() && is_digit(s[from]) {
        lemma_digits_end(s, from + 1);
    }
}

fn digit(c: char) -> (r: bool)
    ensures
        r == is_digit(c),
{
    '0' <= c && c <= '9'
}

pub(crate) fn sign(c: char) -> (r: bool)
    ensures
        r == is_sign(c),
{
    c == '+' || c == '-'
}

fn letter(c: char, lower: char, upper: char) -> (r: bool)
    ensures
        r == is_letter(c, lower, upper),
{
    c == lower || c == upper
}

/// Scans the run of digits that starts at `from`.
pub(crate) fn scan_digits(s: &[char], from: usize) -> (end: usize)
    requires
        from <= s@.len(),
    ensures
        end == digits_end(s@, from as int),
        from <= end <= s@.len(),
{
    let mut i = from;
    while i < s.len() && digit(s[i])
        invariant
            from <= i <= s@.len(),
            digits_end(s@, from as int) == digits_end(s@, i as int),
        decreases s@.len() - i,
    {
        i = i + 1;
    }
    i
}

fn special_word(s: &[char]) -> (r: bool)
    ensures
        r == is_special_word(s@),
{
    let n = s.len();
    if n == 3 {
        (letter(s[0], 'i', 'I') && letter(s[1], 'n', 'N') && letter(s[2], 'f', 'F')) || (letter(
            s[0],
            'n',
            'N',
        ) && letter(s[1], 'a', 'A') && letter(s[2], 'n', 'N'))
    } else if n == 8 {
        assert(s@.subrange(0, 3).len() == 3);
        assert(s@.subrange(0, 3)[0] == s@[0]);
        assert(s@.subrange(0, 3)[1] == s@[1]);
        assert(s@.subrange(0, 3)[2] == s@[2]);
        letter(s[0], 'i', 'I') && letter(s[1], 'n', 'N') && letter(s[2], 'f', 'F') && letter(
            s[3],
            'i',
            'I',
        ) && letter(s[4], 'n', 'N') && letter(s[5], 'i', 'I') && letter(s[6], 't', 'T')
            && letter(s[7], 'y', 'Y')
    } else {
        false
    }
}

fn exponent(s: &[char]) -> (r: bool)
    ensures
        r == is_exponent(s@),
{
    let n = s.len();
    if n < 2 || !letter(s[0], 'e', 'E') {
        return false;
    }
    let first: usize = if sign(s[1]) { 2 } else { 1 };
    first < n && scan_digits(s, first) == n
}

pub(crate) fn number(s: &[char]) -> (r: bool)
    ensures
        r == is_number(s@),
{
    let n = s.len();
    let whole = scan_digits(s, 0);
    let (end, digits) = if whole < n && s[whole] == '.' {
        let end = scan_digits(s, whole + 1);
        (end, end - 1)
    } else {
        (whole, whole)
    };
    if digits == 0 {
        return false;
    }
    end == n || exponent(slice_subrange(s, end, n))
}

/// Whether the characters `s` are a floating-point literal.
pub fn is_float_chars(s: &[char]) -> (r: bool)
    ensures
        r == is_float_text(s@),
{
    let n = s.len();
    let body = if n > 0 && sign(s[0]) { slice_subrange(s, 1, n) } else { s };
    special_word(body) || number(body)
}

/// Whether `s` is a floating-point literal, that is, whether it parses as a
/// floating-point number.
pub fn is_float(s: &str) -> (r: bool)
    ensures
        r == is_float_text(s@),
{
    let v = chars_of(s);
    is_float_chars(v.as_slice())
}

} // verus!
