//! The value of a decimal number, as far as its digits decide it.
//!
//! A number is written as a mantissa and an exponent. The mantissa's digits,
//! read as one natural number, and the power of ten that they are scaled by
//! give the number exactly, however long it is written. To compare it with a
//! bound it is enough to know where its first digit that is not zero stands,
//! which digit that is, and whether anything but zeros follows it.

use vstd::prelude::*;
use vstd::arithmetic::power::{
    lemma_pow0, lemma_pow1, lemma_pow_adds, lemma_pow_increases, lemma_pow_positive, pow,
};
use crate::literal::{
    digits_end, is_digit, is_exponent, is_number, is_sign, lemma_digits_end, mantissa_end,
    scan_digits,
};

verus! {

/// Ten to the power of `n`.
pub open spec fn pow10(n: nat) -> int {
    pow(10, n)
}

/// The value of a digit.
pub open spec fn digit_value(c: char) -> int {
    c as int - '0' as int
}

/// The natural number that a run of digits spells.
pub open spec fn digits_value(s: Seq<char>) -> int
    decreases s.len(),
{
    if s.len() == 0 {
        0
    } else {
        10 * digits_value(s.drop_last()) + digit_value(s.last())
    }
}

/// The digits of the mantissa of an unsigned number, without the point.
pub open spec fn mantissa_text(u: Seq<char>) -> Seq<char> {
    let whole = digits_end(u, 0);
    if whole < u.len() && u[whole] == '.' {
        u.subrange(0, whole) + u.subrange(whole + 1, mantissa_end(u))
    } else {
        u.subrange(0, whole)
    }
}

/// How many digits of the mantissa of an unsigned number stand behind the
/// point.
pub open spec fn fraction_len(u: Seq<char>) -> int {
    let whole = digits_end(u, 0);
    if whole < u.len() && u[whole] == '.' {
        mantissa_end(u) - whole - 1
    } else {
        0
    }
}

/// The exponent of an unsigned number; zero where none is written.
pub open spec fn exponent_value(u: Seq<char>) -> int {
    let end = mantissa_end(u);
    if end + 1 < u.len() {
        let first = if is_sign(u[end + 1]) { end + 2 } else { end + 1 };
        let size = digits_value(u.subrange(first, u.len() as int));
        if u[end + 1] == '-' { -size } else { size }
    } else {
        0
    }
}

/// The power of ten by which the mantissa's digits, read as one natural
/// number, are to be scaled: an unsigned number `u` stands for
/// `digits_value(mantissa_text(u))` times ten to the power of `scale(u)`.
pub open spec fn scale(u: Seq<char>) -> int {
    exponent_value(u) - fraction_len(u)
}

/// `m` times ten to the power of `k` is at least `bound`.
pub open spec fn scaled_at_least(m: int, k: int, bound: int) -> bool {
    if k >= 0 {
        m * pow10(k as nat) >= bound
    } else {
        m >= bound * pow10((-k) as nat)
    }
}

/// `m` times ten to the power of `k` is at most `bound`.
pub open spec fn scaled_at_most(m: int, k: int, bound: int) -> bool {
    if k >= 0 {
        m * pow10(k as nat) <= bound
    } else {
        m <= bound * pow10((-k) as nat)
    }
}

/// What decides the size of a run of digits: how many digits it has from
/// the first that is not zero on, that digit, and whether only zeros follow
/// it.
pub struct Leading {
    pub len: nat,
    pub lead: int,
    pub bare: bool,
}

pub open spec fn all_digits(s: Seq<char>) -> bool {
    forall|i: int| 0 <= i < s.len() ==> is_digit(#[trigger] s[i])
}

/// One more digit behind a run of digits.
pub open spec fn leading_push(before: Leading, c: char) -> Leading {
    if before.len == 0 {
        if digit_value(c) == 0 {
            before
        } else {
            Leading { len: 1, lead: digit_value(c), bare: true }
        }
    } else {
        Leading {
            len: before.len + 1,
            lead: before.lead,
            bare: before.bare && digit_value(c) == 0,
        }
    }
}

pub open spec fn leading(s: Seq<char>) -> Leading
    decreases s.len(),
{
    if s.len() == 0 {
        Leading { len: 0, lead: 0, bare: true }
    } else {
        leading_push(leading(s.drop_last()), s.last())
    }
}

/// The value of a run of digits lies between its first digit that is not
/// zero and the next digit, both scaled to where that digit stands; it is
/// the lower of the two exactly when only zeros follow.
pub proof fn lemma_leading(s: Seq<char>)
    requires
        all_digits(s),
    ensures
        leading(s).len <= s.len(),
        leading(s).len == 0 ==> digits_value(s) == 0,
        leading(s).len > 0 ==> {
            let l = leading(s);
            let unit = pow10((l.len - 1) as nat);
            &&& 1 <= l.lead <= 9
            &&& unit >= 1
            &&& l.lead * unit <= digits_value(s) < (l.lead + 1) * unit
            &&& (digits_value(s) == l.lead * unit <==> l.bare)
        },
    decreases s.len(),
{
    if s.len() > 0 {
        let front = s.drop_last();
        assert(all_digits(front)) by {
            assert forall|i: int| 0 <= i < front.len() implies is_digit(#[trigger] front[i]) by {
                assert(front[i] == s[i]);
            }
        }
        lemma_leading(front);
        let before = leading(front);
        let d = digit_value(s.last());
        assert(is_digit(s[s.len() - 1]));
        assert(0 <= d <= 9);
        let v = digits_value(front);
        assert(digits_value(s) == 10 * v + d);
        if before.len == 0 {
            lemma_pow0(10);
        } else {
            let unit = pow10((before.len - 1) as nat);
            let next = pow10(before.len);
            assert(next == 10 * unit) by {
                lemma_pow_adds(10, 1, (before.len - 1) as nat);
                lemma_pow1(10);
            }
            let a = before.lead;
            assert(a * next == 10 * (a * unit)) by (nonlinear_arith)
                requires
                    next == 10 * unit,
            ;
            assert((a + 1) * next == 10 * ((a + 1) * unit)) by (nonlinear_arith)
                requires
                    next == 10 * unit,
            ;
        }
    }
}

/// How a number with `len` digits, the first of them not zero, scaled by
/// ten to the power of `k`, compares with one hundredth and with two. It is
/// decided by where the first digit comes to stand, but where that is the
/// place of the units: there the number is at most two exactly when the
/// digits are at most two followed by zeros.
pub proof fn lemma_scaled_bounds(m: int, len: nat, k: int)
    requires
        len >= 1,
        pow10((len - 1) as nat) <= m < pow10(len),
    ensures
        len - 1 + k >= 1 ==> !scaled_at_most(m, k, 2),
        len - 1 + k <= -3 ==> !scaled_at_least(m, k + 2, 1),
        -2 <= len - 1 + k <= 0 ==> scaled_at_least(m, k + 2, 1),
        -2 <= len - 1 + k <= -1 ==> scaled_at_most(m, k, 2),
        len - 1 + k == 0 ==> (scaled_at_most(m, k, 2) <==> m <= 2 * pow10((len - 1) as nat)),
{
    let place = len - 1 + k;
    let low = pow10((len - 1) as nat);
    lemma_pow_positive(10, (len - 1) as nat);
    lemma_pow0(10);
    lemma_pow1(10);
    if place >= 1 {
        if k >= 0 {
            let scale = pow10(k as nat);
            lemma_pow_positive(10, k as nat);
            lemma_pow_adds(10, (len - 1) as nat, k as nat);
            lemma_pow_increases(10, 1, place as nat);
            assert(m * scale >= low * scale) by (nonlinear_arith)
                requires
                    m >= low,
                    scale > 0,
            ;
        } else {
            lemma_pow_increases(10, (-k) as nat, (len - 2) as nat);
            lemma_pow_adds(10, 1, (len - 2) as nat);
        }
    }
    if place <= -3 {
        lemma_pow_increases(10, len, (-(k + 2)) as nat);
    }
    if -2 <= place <= 0 {
        let j = k + 2;
        if j >= 0 {
            let scale = pow10(j as nat);
            lemma_pow_positive(10, j as nat);
            assert(m * scale >= 1) by (nonlinear_arith)
                requires
                    m >= 1,
                    scale >= 1,
            ;
        } else {
            lemma_pow_increases(10, (-j) as nat, (len - 1) as nat);
        }
    }
    if -2 <= place <= -1 {
        lemma_pow_increases(10, len, (-k) as nat);
        lemma_pow_positive(10, (-k) as nat);
    }
    if place == 0 && k == 0 {
        assert(m * pow10(0) == m);
        assert(2 * pow10(0) == 2);
    }
}

/// What has been seen of a run of digits: see `Leading`. The first digit
/// that is not zero is kept as it is written.
struct Digits {
    len: usize,
    lead: char,
    bare: bool,
}

impl View for Digits {
    type V = Leading;

    closed spec fn view(&self) -> Leading {
        Leading {
            len: self.len as nat,
            lead: if self.len == 0 { 0 } else { digit_value(self.lead) },
            bare: self.bare,
        }
    }
}

/// Takes the digits of `s` from `from` up to `to` behind those `seen`
/// before.
fn take_digits(s: &[char], from: usize, to: usize, before: Digits, Ghost(seen): Ghost<
    Seq<char>,
>) -> (r: Digits)
    requires
        from <= to <= s@.len(),
        all_digits(s@.subrange(from as int, to as int)),
        before@ == leading(seen),
        before.len <= from,
    ensures
        r@ == leading(seen + s@.subrange(from as int, to as int)),
        r.len <= to,
{
    let mut cur = before;
    let mut i = from;
    assert(seen + s@.subrange(from as int, from as int) =~= seen);
    while i < to
        invariant
            from <= i <= to <= s@.len(),
            all_digits(s@.subrange(from as int, to as int)),
            cur@ == leading(seen + s@.subrange(from as int, i as int)),
            cur.len <= i,
        decreases to - i,
    {
        let c = s[i];
        proof {
            let old_run = seen + s@.subrange(from as int, i as int);
            let new_run = seen + s@.subrange(from as int, i + 1);
            assert(new_run.drop_last() =~= old_run);
            assert(new_run.last() == c);
            assert(s@.subrange(from as int, to as int)[i - from] == c);
            assert(is_digit(c));
        }
        if cur.len == 0 {
            if c != '0' {
                cur = Digits { len: 1, lead: c, bare: true };
            }
        } else {
            cur = Digits { len: cur.len + 1, lead: cur.lead, bare: cur.bare && c == '0' };
        }
        i = i + 1;
    }
    cur
}

/// The greatest exponent that is told apart from the greater ones.
const EXPONENT_CAP: u128 = 1_000_000_000_000_000_000_000_000_000_000;

/// Each digit more makes the value of a run of digits no smaller.
proof fn lemma_digits_value_grows(s: Seq<char>)
    requires
        all_digits(s),
        s.len() > 0,
    ensures
        0 <= digits_value(s.drop_last()) <= digits_value(s),
    decreases s.len(),
{
    let front = s.drop_last();
    assert(all_digits(front)) by {
        assert forall|i: int| 0 <= i < front.len() implies is_digit(#[trigger] front[i]) by {
            assert(front[i] == s[i]);
        }
    }
    assert(is_digit(s[s.len() - 1]));
    if front.len() > 0 {
        lemma_digits_value_grows(front);
    }
}

/// The value of the digits of `s` from `from` on, as far as it lies under
/// the cap; at or over the cap, a value that is at or over it too.
fn capped_value(s: &[char], from: usize) -> (r: u128)
    requires
        from <= s@.len(),
        all_digits(s@.subrange(from as int, s@.len() as int)),
    ensures
        r < EXPONENT_CAP ==> r == digits_value(s@.subrange(from as int, s@.len() as int)),
        r >= EXPONENT_CAP ==> digits_value(s@.subrange(from as int, s@.len() as int))
            >= EXPONENT_CAP,
        r < 10 * EXPONENT_CAP,
{
    let mut value: u128 = 0;
    let mut i = from;
    assert(s@.subrange(from as int, from as int) =~= Seq::<char>::empty());
    while i < s.len()
        invariant
            from <= i <= s@.len(),
            all_digits(s@.subrange(from as int, s@.len() as int)),
            value < EXPONENT_CAP ==> value == digits_value(s@.subrange(from as int, i as int)),
            value >= EXPONENT_CAP ==> digits_value(s@.subrange(from as int, i as int))
                >= EXPONENT_CAP,
            value < 10 * EXPONENT_CAP,
        decreases s@.len() - i,
    {
        let c = s[i];
        proof {
            let old_run = s@.subrange(from as int, i as int);
            let new_run = s@.subrange(from as int, i + 1);
            assert(new_run.drop_last() =~= old_run);
            assert(new_run.last() == c);
            assert(s@.subrange(from as int, s@.len() as int)[i - from] == c);
            assert(is_digit(c));
            assert(all_digits(new_run)) by {
                assert forall|k: int| 0 <= k < new_run.len() implies is_digit(
                    #[trigger] new_run[k],
                ) by {
                    assert(new_run[k] == s@.subrange(from as int, s@.len() as int)[k]);
                }
            }
            lemma_digits_value_grows(new_run);
        }
        if value < EXPONENT_CAP {
            let d: u32 = c as u32 - '0' as u32;
            value = value * 10 + d as u128;
        }
        i = i + 1;
    }
    assert(s@.subrange(from as int, i as int) =~= s@.subrange(from as int, s@.len() as int));
    value
}

/// Reads the mantissa of the unsigned number `u`: what its digits come
/// to, how many of them stand behind the point, and where it ends.
fn read_mantissa(u: &[char]) -> (r: (Digits, usize, usize))
    ensures
        r.0@ == leading(mantissa_text(u@)),
        all_digits(mantissa_text(u@)),
        r.1 == fraction_len(u@),
        r.2 == mantissa_end(u@),
        r.2 <= u@.len(),
{
    let n = u.len();
    let whole = scan_digits(u, 0);
    let point = whole < n && u[whole] == '.';
    let end = if point { scan_digits(u, whole + 1) } else { whole };
    proof {
        lemma_digits_end(u@, 0);
        if point {
            lemma_digits_end(u@, whole + 1);
        }
        assert(all_digits(u@.subrange(0, whole as int)));
        if point {
            assert(all_digits(u@.subrange(whole + 1, end as int)));
        }
        assert(Seq::<char>::empty() + u@.subrange(0, whole as int) =~= u@.subrange(
            0,
            whole as int,
        ));
    }
    let none = Digits { len: 0, lead: '0', bare: true };
    let first = take_digits(u, 0, whole, none, Ghost(Seq::empty()));
    if point {
        let digits = take_digits(u, whole + 1, end, first, Ghost(u@.subrange(0, whole as int)));
        (digits, end - whole - 1, end)
    } else {
        (first, 0, end)
    }
}

/// Reads the exponent of the unsigned number `u`, whose mantissa ends at
/// `end`: whether it is negative, and its size as far as that lies under
/// the cap.
fn read_exponent(u: &[char], end: usize) -> (r: (bool, u128))
    requires
        is_number(u@),
        end == mantissa_end(u@),
        end <= u@.len(),
    ensures
        r.1 < 10 * EXPONENT_CAP,
        r.1 < EXPONENT_CAP ==> exponent_value(u@) == (if r.0 { -(r.1 as int) } else { r.1 as int }),
        r.1 >= EXPONENT_CAP ==> (if r.0 {
            exponent_value(u@) <= -(EXPONENT_CAP as int)
        } else {
            exponent_value(u@) >= EXPONENT_CAP
        }),
{
    let n = u.len();
    if end < n {
        proof {
            let e = u@.subrange(end as int, n as int);
            assert(is_exponent(e));
            assert(e[1] == u@[end + 1]);
            let first = if is_sign(e[1]) { 2int } else { 1int };
            lemma_digits_end(e, first);
            assert(u@.subrange(end + first, n as int) =~= e.subrange(first, e.len() as int));
            assert(all_digits(e.subrange(first, e.len() as int)));
        }
        let c = u[end + 1];
        let start = if c == '+' || c == '-' { end + 2 } else { end + 1 };
        (c == '-', capped_value(u, start))
    } else {
        (false, 0)
    }
}

/// The digits `text`, scaled by ten to the power of `k`, lie between one
/// hundredth and two exactly when the first digit that is not zero comes to
/// stand in the place of the hundredths or of the tenths, or in that of the
/// units and the digits are a one followed by anything or a two followed by
/// zeros.
pub proof fn lemma_hundredth_to_two(text: Seq<char>, k: int)
    requires
        all_digits(text),
    ensures
        (scaled_at_least(digits_value(text), k + 2, 1) && scaled_at_most(digits_value(text), k, 2))
            <==> {
            let l = leading(text);
            let place = l.len - 1 + k;
            l.len > 0 && (place == -2 || place == -1 || (place == 0 && (l.lead == 1 || (l.lead
                == 2 && l.bare))))
        },
{
    let m = digits_value(text);
    let l = leading(text);
    lemma_leading(text);
    if l.len == 0 {
        lemma_pow_positive(10, (k + 2) as nat);
        lemma_pow_positive(10, (-(k + 2)) as nat);
        assert(0 * pow10((k + 2) as nat) == 0);
    } else {
        let unit = pow10((l.len - 1) as nat);
        assert(pow10(l.len) == 10 * unit) by {
            lemma_pow_adds(10, 1, (l.len - 1) as nat);
            lemma_pow1(10);
        }
        assert(unit <= m < pow10(l.len)) by (nonlinear_arith)
            requires
                1 <= l.lead <= 9,
                unit >= 1,
                l.lead * unit <= m < (l.lead + 1) * unit,
                pow10(l.len) == 10 * unit,
        ;
        lemma_scaled_bounds(m, l.len, k);
        assert(m <= 2 * unit <==> (l.lead == 1 || (l.lead == 2 && l.bare))) by (nonlinear_arith)
            requires
                1 <= l.lead <= 9,
                unit >= 1,
                l.lead * unit <= m < (l.lead + 1) * unit,
                m == l.lead * unit <==> l.bare,
        ;
    }
}

/// Whether the unsigned number `u` lies between one hundredth and two, both
/// included.
pub(crate) fn from_hundredth_to_two(u: &[char]) -> (r: bool)
    requires
        is_number(u@),
    ensures
        r == (scaled_at_least(digits_value(mantissa_text(u@)), scale(u@) + 2, 1)
            && scaled_at_most(digits_value(mantissa_text(u@)), scale(u@), 2)),
{
    let (digits, fraction, end) = read_mantissa(u);
    proof {
        lemma_hundredth_to_two(mantissa_text(u@), scale(u@));
    }
    if digits.len == 0 {
        return false;
    }
    let (negative, size) = read_exponent(u, end);
    let base: i128 = digits.len as i128 - 1 - fraction as i128;
    let place: i128 = if negative { base - size as i128 } else { base + size as i128 };
    proof {
        let true_place = digits@.len - 1 + scale(u@);
        if size < EXPONENT_CAP {
            assert(place == true_place);
        } else {
            assert(place >= 1 <==> true_place >= 1);
            assert(place <= -3 <==> true_place <= -3);
            assert(place >= 1 || place <= -3);
        }
    }
    if place == -2 || place == -1 {
        true
    } else if place == 0 {
        digits.lead == '1' || (digits.lead == '2' && digits.bare)
    } else {
        false
    }
}

} // verus!
