//! The grammars of pitch and rate.
//!
//! A pitch or a rate is given as a text. Most forms are sent to the service
//! as they stand: a number with a unit, or one of a few words. A bare number
//! is a fraction of the usual pitch or rate, and is sent as a percentage:
//! the number times one hundred, written with two decimals. That arithmetic
//! is done in floating point, by the caller.
//!
//! A style degree is a number from 0.01 to 2, and is held as it was written.

use vstd::prelude::*;
use crate::chars::{chars_of, spells};
use crate::error::ArgsError;
use crate::decimal::{
    digits_value, from_hundredth_to_two, mantissa_text, scale, scaled_at_least, scaled_at_most,
};
use crate::literal::{
    digits_end, is_digit, is_exponent, is_float_chars, is_float_text, is_inf_word, is_letter,
    is_number, is_sign, is_special_word, lemma_digits_end, mantissa_end, number, sign,
    unsigned_part,
};
use vstd::slice::slice_subrange;

verus! {

/// A pitch or rate that the grammar accepts.
#[derive(Clone, Debug, PartialEq, Eq)]
pub enum Prosody {
    /// A text that the service takes as it stands.
    Literal(String),
    /// A floating-point literal that stands for a fraction, and goes to the
    /// service as a percentage.
    Fraction(String),
}

/// What a `Prosody` holds.
pub enum ProsodyValue {
    Literal(Seq<char>),
    Fraction(Seq<char>),
}

impl View for Prosody {
    type V = ProsodyValue;

    open spec fn view(&self) -> ProsodyValue {
        match self {
            Prosody::Literal(text) => ProsodyValue::Literal(text@),
            Prosody::Fraction(text) => ProsodyValue::Fraction(text@),
        }
    }
}

/// `s` ends with `suffix`.
pub open spec fn ends_with(s: Seq<char>, suffix: Seq<char>) -> bool {
    s.len() >= suffix.len() && s.subrange(s.len() - suffix.len(), s.len() as int) == suffix
}

/// `s` without its last `n` characters.
pub open spec fn chop(s: Seq<char>, n: nat) -> Seq<char>
    recommends
        n <= s.len(),
{
    s.subrange(0, s.len() - n)
}

/// `s` is a floating-point literal followed by `unit`.
pub open spec fn has_unit(s: Seq<char>, unit: Seq<char>) -> bool {
    ends_with(s, unit) && is_float_text(chop(s, unit.len()))
}

/// The words that name a pitch.
pub open spec fn is_pitch_word(s: Seq<char>) -> bool {
    s == "default"@ || s == "x-low"@ || s == "low"@ || s == "medium"@ || s == "high"@ || s
        == "x-high"@
}

/// The words that name a rate.
pub open spec fn is_rate_word(s: Seq<char>) -> bool {
    s == "default"@ || s == "x-slow"@ || s == "slow"@ || s == "medium"@ || s == "fast"@ || s
        == "x-fast"@
}

/// `s` is a sign, a floating-point literal and `st`: a number of semitones
/// up or down. The sign is always written, whatever the literal begins
/// with.
pub open spec fn is_semitones(s: Seq<char>) -> bool {
    &&& ends_with(s, "st"@)
    &&& is_sign(s[0])
    &&& is_float_text(s.subrange(1, s.len() - "st"@.len()))
}

/// What a pitch given as `s` is, if it is a pitch at all. A number of hertz
/// or a percentage, a number of semitones with its sign, and the words
/// stand as they are; any other floating-point literal is a fraction.
pub open spec fn pitch_value(s: Seq<char>) -> Option<ProsodyValue> {
    if has_unit(s, "Hz"@) || has_unit(s, "%"@) || is_semitones(s) || is_pitch_word(s) {
        Some(ProsodyValue::Literal(s))
    } else if is_float_text(s) {
        Some(ProsodyValue::Fraction(s))
    } else {
        None
    }
}

/// What a rate given as `s` is, if it is a rate at all. A percentage and the
/// words stand as they are; a number followed by `f` is a factor, and goes
/// without the `f`; any other floating-point literal is a fraction.
pub open spec fn rate_value(s: Seq<char>) -> Option<ProsodyValue> {
    if has_unit(s, "%"@) || is_rate_word(s) {
        Some(ProsodyValue::Literal(s))
    } else if has_unit(s, "f"@) {
        Some(ProsodyValue::Literal(chop(s, 1)))
    } else if is_float_text(s) {
        Some(ProsodyValue::Fraction(s))
    } else {
        None
    }
}

/// Whether `s` is a floating-point literal followed by `unit`.
fn unit_follows(s: &[char], unit: &str) -> (r: bool)
    ensures
        r == has_unit(s@, unit@),
{
    let u = chars_of(unit);
    let n = s.len();
    if n < u.len() {
        return false;
    }
    let cut = n - u.len();
    spells(slice_subrange(s, cut, n), unit) && is_float_chars(
        slice_subrange(s, 0, cut),
    )
}

/// Whether `s` is a number of semitones with its sign.
fn semitones(s: &[char]) -> (r: bool)
    ensures
        r == is_semitones(s@),
{
    proof {
        reveal_strlit("st");
    }
    let n = s.len();
    if n < 3 {
        assert(is_semitones(s@) ==> s@.subrange(n - 2, n as int)[0] == 's');
        return false;
    }
    spells(slice_subrange(s, n - 2, n), "st") && sign(s[0]) && is_float_chars(
        slice_subrange(s, 1, n - 2),
    )
}

fn pitch_word(s: &[char]) -> (r: bool)
    ensures
        r == is_pitch_word(s@),
{
    spells(s, "default") || spells(s, "x-low") || spells(s, "low") || spells(s, "medium")
        || spells(s, "high") || spells(s, "x-high")
}

fn rate_word(s: &[char]) -> (r: bool)
    ensures
        r == is_rate_word(s@),
{
    spells(s, "default") || spells(s, "x-slow") || spells(s, "slow") || spells(s, "medium")
        || spells(s, "fast") || spells(s, "x-fast")
}

/// Reads a pitch. The result is `pitch_value` of the argument; where that
/// is nothing, the error holds the argument.
pub fn parse_pitch(arg: &str) -> (r: Result<Prosody, ArgsError>)
    ensures
        match r {
            Ok(p) => pitch_value(arg@) == Some(p@),
            Err(ArgsError::Pitch(given)) => pitch_value(arg@) is None && given@ == arg@,
            Err(_) => false,
        },
{
    let v = chars_of(arg);
    let s = v.as_slice();
    if unit_follows(s, "Hz") || unit_follows(s, "%") || semitones(s) || pitch_word(s) {
        Ok(Prosody::Literal(arg.to_owned()))
    } else if is_float_chars(s) {
        Ok(Prosody::Fraction(arg.to_owned()))
    } else {
        Err(ArgsError::Pitch(arg.to_owned()))
    }
}

/// Reads a rate. The result is `rate_value` of the argument; where that is
/// nothing, the error holds the argument.
pub fn parse_rate(arg: &str) -> (r: Result<Prosody, ArgsError>)
    ensures
        match r {
            Ok(p) => rate_value(arg@) == Some(p@),
            Err(ArgsError::Rate(given)) => rate_value(arg@) is None && given@ == arg@,
            Err(_) => false,
        },
{
    let v = chars_of(arg);
    let s = v.as_slice();
    if unit_follows(s, "%") || rate_word(s) {
        Ok(Prosody::Literal(arg.to_owned()))
    } else if unit_follows(s, "f") {
        proof {
            reveal_strlit("f");
        }
        Ok(Prosody::Literal(arg.substring_char(0, v.len() - 1).to_owned()))
    } else if is_float_chars(s) {
        Ok(Prosody::Fraction(arg.to_owned()))
    } else {
        Err(ArgsError::Rate(arg.to_owned()))
    }
}

/// `s` is a number from one hundredth to two, both included: a number and
/// not one of the words, not negative, and within the two bounds by its
/// digits and their scale.
pub open spec fn is_style_degree(s: Seq<char>) -> bool {
    let u = unsigned_part(s);
    &&& is_number(u)
    &&& s[0] != '-'
    &&& scaled_at_least(digits_value(mantissa_text(u)), scale(u) + 2, 1)
    &&& scaled_at_most(digits_value(mantissa_text(u)), scale(u), 2)
}

/// How strongly a speaking style is applied: a number from 0.01 to 2, held
/// as the text that it was given as.
#[derive(Debug)]
pub struct StyleDegree {
    text: String,
}

impl View for StyleDegree {
    type V = Seq<char>;

    closed spec fn view(&self) -> Seq<char> {
        self.text@
    }
}

impl StyleDegree {
    #[verifier::type_invariant]
    spec fn in_range(self) -> bool {
        is_style_degree(self.text@)
    }

    /// The number as it was written.
    pub fn as_str(&self) -> (r: &str)
        ensures
            r@ == self@,
            is_style_degree(r@),
    {
        proof {
            use_type_invariant(self);
        }
        self.text.as_str()
    }
}

impl Clone for StyleDegree {
    fn clone(&self) -> (r: StyleDegree)
        ensures
            r@ == self@,
    {
        proof {
            use_type_invariant(self);
        }
        StyleDegree { text: self.text.clone() }
    }
}

/// Reads a style degree. A text that is no floating-point literal at all is
/// told apart from one that is a literal, but none between the bounds.
pub fn parse_style_degree(arg: &str) -> (r: Result<StyleDegree, ArgsError>)
    ensures
        match r {
            Ok(degree) => is_style_degree(arg@) && degree@ == arg@,
            Err(ArgsError::NotANumber(given)) => !is_float_text(arg@) && given@ == arg@,
            Err(ArgsError::StyleDegreeRange(given)) => is_float_text(arg@) && !is_style_degree(
                arg@,
            ) && given@ == arg@,
            Err(_) => false,
        },
{
    let v = chars_of(arg);
    let s = v.as_slice();
    if !is_float_chars(s) {
        return Err(ArgsError::NotANumber(arg.to_owned()));
    }
    let n = s.len();
    let body = if n > 0 && sign(s[0]) { slice_subrange(s, 1, n) } else { s };
    if number(body) && s[0] != '-' && from_hundredth_to_two(body) {
        Ok(StyleDegree { text: arg.to_owned() })
    } else {
        Err(ArgsError::StyleDegreeRange(arg.to_owned()))
    }
}

/// A floating-point literal ends in a digit, in a point, or in the last
/// letter of one of the three words; and one that ends in `f` or `F` is the
/// word `inf` with or without a sign.
pub proof fn lemma_literal_end(s: Seq<char>)
    requires
        is_float_text(s),
    ensures
        s.len() > 0,
        is_digit(s.last()) || s.last() == '.' || is_letter(s.last(), 'f', 'F') || is_letter(
            s.last(),
            'y',
            'Y',
        ) || is_letter(s.last(), 'n', 'N'),
        is_letter(s.last(), 'f', 'F') ==> is_inf_word(unsigned_part(s)),
{
    let u = unsigned_part(s);
    if is_special_word(u) {
        assert(u.len() > 0);
        assert(s.last() == u.last());
    } else {
        assert(is_number(u));
        lemma_digits_end(u, 0);
        let whole = digits_end(u, 0);
        let end = mantissa_end(u);
        if whole < u.len() && u[whole] == '.' {
            lemma_digits_end(u, whole + 1);
        }
        if end == u.len() {
            assert(is_digit(u[end - 1]) || u[end - 1] == '.');
        } else {
            let e = u.subrange(end, u.len() as int);
            assert(is_exponent(e));
            let first = if is_sign(e[1]) { 2int } else { 1int };
            lemma_digits_end(e, first);
            assert(is_digit(e[e.len() - 1]));
            assert(e[e.len() - 1] == u[u.len() - 1]);
        }
        assert(s.last() == u.last());
        assert(is_digit(s.last()) || s.last() == '.');
    }
}

/// A floating-point literal is a fraction, as a pitch and as a rate: no
/// literal is at the same time a number with a unit or one of the words.
pub proof fn lemma_literal_is_fraction(s: Seq<char>)
    requires
        is_float_text(s),
    ensures
        pitch_value(s) == Some(ProsodyValue::Fraction(s)),
        rate_value(s) == Some(ProsodyValue::Fraction(s)),
{
    lemma_literal_end(s);
    let last = s.last();
    reveal_strlit("Hz");
    reveal_strlit("%");
    reveal_strlit("st");
    reveal_strlit("f");
    reveal_strlit("default");
    reveal_strlit("x-low");
    reveal_strlit("low");
    reveal_strlit("medium");
    reveal_strlit("high");
    reveal_strlit("x-high");
    reveal_strlit("x-slow");
    reveal_strlit("slow");
    reveal_strlit("fast");
    reveal_strlit("x-fast");
    assert(!ends_with(s, "Hz"@)) by {
        if ends_with(s, "Hz"@) {
            assert(s.subrange(s.len() - 2, s.len() as int)[1] == 'z');
        }
    }
    assert(!ends_with(s, "%"@)) by {
        if ends_with(s, "%"@) {
            assert(s.subrange(s.len() - 1, s.len() as int)[0] == '%');
        }
    }
    assert(!ends_with(s, "st"@)) by {
        if ends_with(s, "st"@) {
            assert(s.subrange(s.len() - 2, s.len() as int)[1] == 't');
        }
    }
    assert(!is_pitch_word(s));
    assert(!is_rate_word(s));
    assert(!has_unit(s, "f"@)) by {
        if ends_with(s, "f"@) {
            assert(s.subrange(s.len() - 1, s.len() as int)[0] == 'f');
            assert(last == 'f');
            let u = unsigned_part(s);
            assert(is_inf_word(u));
            let c = chop(s, 1);
            let cu = unsigned_part(c);
            assert(cu.len() == 2);
            assert(cu[0] == u[0]);
            assert(!is_digit(cu[0]));
            assert(digits_end(cu, 0) == 0);
            assert(!is_number(cu));
            assert(!is_special_word(cu));
        }
    }
}

/// A number of semitones without a sign in front is no pitch, whatever
/// stands before the unit.
pub proof fn lemma_semitones_need_sign(s: Seq<char>)
    requires
        ends_with(s, "st"@),
        !is_sign(s[0]),
    ensures
        pitch_value(s) is None,
{
    reveal_strlit("Hz");
    reveal_strlit("%");
    reveal_strlit("st");
    reveal_strlit("default");
    reveal_strlit("x-low");
    reveal_strlit("low");
    reveal_strlit("medium");
    reveal_strlit("high");
    reveal_strlit("x-high");
    let tail = s.subrange(s.len() - 2, s.len() as int);
    assert(tail[0] == 's' && tail[1] == 't');
    assert(s[s.len() - 2] == 's' && s[s.len() - 1] == 't');
    assert(!ends_with(s, "Hz"@)) by {
        if ends_with(s, "Hz"@) {
            assert(s.subrange(s.len() - 2, s.len() as int)[1] == 'z');
        }
    }
    assert(!ends_with(s, "%"@)) by {
        if ends_with(s, "%"@) {
            assert(s.subrange(s.len() - 1, s.len() as int)[0] == '%');
        }
    }
    assert(!is_pitch_word(s));
    if is_float_text(s) {
        lemma_literal_end(s);
    }
}

/// A floating-point literal followed by `f` is a rate, and the rate is the
/// literal without the `f`.
pub proof fn lemma_rate_factor(number: Seq<char>)
    requires
        is_float_text(number),
    ensures
        rate_value(number + "f"@) == Some(ProsodyValue::Literal(number)),
{
    reveal_strlit("%");
    reveal_strlit("f");
    reveal_strlit("default");
    reveal_strlit("x-slow");
    reveal_strlit("slow");
    reveal_strlit("medium");
    reveal_strlit("fast");
    reveal_strlit("x-fast");
    let s = number + "f"@;
    assert(s[s.len() - 1] == 'f');
    assert(s.subrange(s.len() - 1, s.len() as int) =~= "f"@);
    assert(chop(s, 1) =~= number);
    assert(!ends_with(s, "%"@)) by {
        if ends_with(s, "%"@) {
            assert(s.subrange(s.len() - 1, s.len() as int)[0] == '%');
        }
    }
    assert(!is_rate_word(s));
}

} // verus!
