//! Request headers.
//!
//! A header is a name and a value. Both are checked when a header is made,
//! by the library that will send them, so that a `Header` always holds what
//! can be sent.

use vstd::prelude::*;
use reqwest::header::{HeaderName, HeaderValue, InvalidHeaderName, InvalidHeaderValue};
use crate::chars::chars_of;
use crate::error::ArgsError;

verus! {

/// The error of `HeaderName::from_bytes`. Nothing is known of what it holds.
#[verifier::external_type_specification]
#[verifier::external_body]
pub struct ExInvalidHeaderName(InvalidHeaderName);

/// The error of `HeaderValue::from_bytes` and `HeaderValue::from_str`.
/// Nothing is known of what it holds.
#[verifier::external_type_specification]
#[verifier::external_body]
pub struct ExInvalidHeaderValue(InvalidHeaderValue);

/// A character that a header name may hold: a letter, a digit, or one of a
/// few signs.
pub open spec fn is_token_char(c: char) -> bool {
    ('0' <= c && c <= '9') || ('a' <= c && c <= 'z') || ('A' <= c && c <= 'Z') || c == '!' || c
        == '#' || c == '$' || c == '%' || c == '&' || c == '\'' || c == '*' || c == '+' || c
        == '-' || c == '.' || c == '^' || c == '_' || c == '`' || c == '|' || c == '~'
}

/// The longest header name.
pub const MAX_NAME_LEN: usize = 65535;

/// A header name: at least one character and at most `MAX_NAME_LEN`, each
/// of them one that a name may hold.
pub open spec fn is_header_name(s: Seq<char>) -> bool {
    &&& 1 <= s.len() <= MAX_NAME_LEN
    &&& forall|i: int| 0 <= i < s.len() ==> is_token_char(#[trigger] s[i])
}

/// A character that a header value may hold: a tab, or any character from
/// the space on but the one with the number 127.
pub open spec fn is_value_char(c: char) -> bool {
    c == '\t' || (c >= ' ' && c != '\x7f')
}

/// A header value: any number of characters that a value may hold.
pub open spec fn is_header_value(s: Seq<char>) -> bool {
    forall|i: int| 0 <= i < s.len() ==> is_value_char(#[trigger] s[i])
}

/// The letter in lower case; any other character as it is.
pub open spec fn lower(c: char) -> char {
    if 'A' <= c && c <= 'Z' {
        ((c as u32 + 32) as u32) as char
    } else {
        c
    }
}

/// The text with its letters from `A` to `Z` in lower case.
pub open spec fn lower_text(s: Seq<char>) -> Seq<char> {
    Seq::new(s.len(), |i: int| lower(s[i]))
}

/// Makes a header name of `text`, by `HeaderName::from_bytes`. That function
/// accepts the bytes of a text exactly when the text is a header name as
/// `is_header_name` says, and the name it makes reads as the text in lower
/// case.
#[verifier::external_body]
fn name_from_bytes(text: &str) -> (r: Result<String, InvalidHeaderName>)
    ensures
        r is Ok <==> is_header_name(text@),
        r matches Ok(name) ==> name@ == lower_text(text@),
{
    match HeaderName::from_bytes(text.as_bytes()) {
        Ok(name) => Ok(name.as_str().to_owned()),
        Err(error) => Err(error),
    }
}

/// Makes a header value of the bytes of `text`, by `HeaderValue::from_bytes`.
/// That function accepts the bytes of a text exactly when the text is a
/// header value as `is_header_value` says, and the value it makes holds the
/// same bytes.
#[verifier::external_body]
fn value_from_bytes(text: &str) -> (r: Result<String, InvalidHeaderValue>)
    ensures
        r is Ok <==> is_header_value(text@),
        r matches Ok(value) ==> value@ == text@,
{
    match HeaderValue::from_bytes(text.as_bytes()) {
        Ok(value) => Ok(String::from_utf8_lossy(value.as_bytes()).into_owned()),
        Err(error) => Err(error),
    }
}

/// Makes a header value of `text`, by `HeaderValue::from_str`. That function
/// accepts a text exactly when it is a header value as `is_header_value`
/// says, and the value it makes holds the bytes of the text.
#[verifier::external_body]
fn value_from_str(text: &str) -> (r: Result<String, InvalidHeaderValue>)
    ensures
        r is Ok <==> is_header_value(text@),
        r matches Ok(value) ==> value@ == text@,
{
    match HeaderValue::from_str(text) {
        Ok(value) => Ok(String::from_utf8_lossy(value.as_bytes()).into_owned()),
        Err(error) => Err(error),
    }
}

/// A request header: a name in lower case, and a value.
#[derive(Debug)]
pub struct Header {
    name: String,
    value: String,
}

impl View for Header {
    type V = (Seq<char>, Seq<char>);

    closed spec fn view(&self) -> (Seq<char>, Seq<char>) {
        (self.name@, self.value@)
    }
}

/// The name and the value of a header that can be sent: the name is a
/// header name without upper case, the value a header value.
pub open spec fn is_header(pair: (Seq<char>, Seq<char>)) -> bool {
    &&& is_header_name(pair.0)
    &&& lower_text(pair.0) == pair.0
    &&& is_header_value(pair.1)
}

/// The header that a name and a value make, if they make one.
pub open spec fn header_of(name: Seq<char>, value: Seq<char>) -> Option<(Seq<char>, Seq<char>)> {
    if is_header_name(name) && is_header_value(value) {
        Some((lower_text(name), value))
    } else {
        None
    }
}

/// `error` says what keeps `name` and `value` from making a header, and
/// holds the two. The name is looked at first.
pub open spec fn names_bad_header(error: ArgsError, name: Seq<char>, value: Seq<char>) -> bool {
    match error {
        ArgsError::HeaderName { name: n, value: v } => !is_header_name(name) && n@ == name && v@
            == value,
        ArgsError::HeaderValue { name: n, value: v } => is_header_name(name) && !is_header_value(
            value,
        ) && n@ == name && v@ == value,
        _ => false,
    }
}

/// Where the first `=` of `s` stands at or after `from`; the length of `s`
/// if there is none.
pub open spec fn separator_from(s: Seq<char>, from: int) -> int
    decreases s.len() - from,
{
    if 0 <= from < s.len() && s[from] != '=' {
        separator_from(s, from + 1)
    } else {
        from
    }
}

/// Where the first `=` of `s` stands; the length of `s` if there is none.
pub open spec fn separator(s: Seq<char>) -> int {
    separator_from(s, 0)
}

/// The lower case of a header name is a header name, and is its own lower
/// case.
pub proof fn lemma_lower_name(s: Seq<char>)
    requires
        is_header_name(s),
    ensures
        is_header_name(lower_text(s)),
        lower_text(lower_text(s)) == lower_text(s),
{
    let l = lower_text(s);
    assert forall|i: int| 0 <= i < l.len() implies is_token_char(#[trigger] l[i]) && lower(l[i])
        == l[i] by {
        assert(is_token_char(s[i]));
        lemma_lower(s[i]);
    }
    assert(lower_text(l) =~= l);
}

/// A letter from `A` to `Z` in lower case is a letter from `a` to `z`.
pub proof fn lemma_lower(c: char)
    ensures
        'A' <= c && c <= 'Z' ==> 'a' <= lower(c) && lower(c) <= 'z' && lower(c) as u32 == c as u32
            + 32,
        !('A' <= c && c <= 'Z') ==> lower(c) == c,
{
}

impl Header {
    #[verifier::type_invariant]
    spec fn valid(self) -> bool {
        is_header((self.name@, self.value@))
    }

    /// The name, in lower case.
    pub fn name(&self) -> (r: &str)
        ensures
            r@ == self@.0,
            is_header(self@),
    {
        proof {
            use_type_invariant(self);
        }
        self.name.as_str()
    }

    /// The value.
    pub fn value(&self) -> (r: &str)
        ensures
            r@ == self@.1,
            is_header(self@),
    {
        proof {
            use_type_invariant(self);
        }
        self.value.as_str()
    }

    /// Makes a header of a name and a value as a profile holds them. The
    /// name is checked first.
    pub fn new(name: &str, value: &str) -> (r: Result<Header, ArgsError>)
        ensures
            match r {
                Ok(header) => header_of(name@, value@) == Some(header@),
                Err(error) => names_bad_header(error, name@, value@),
            },
    {
        let checked_name = match name_from_bytes(name) {
            Ok(checked) => checked,
            Err(_) => {
                return Err(
                    ArgsError::HeaderName { name: name.to_owned(), value: value.to_owned() },
                );
            },
        };
        let checked_value = match value_from_bytes(value) {
            Ok(checked) => checked,
            Err(_) => {
                return Err(
                    ArgsError::HeaderValue { name: name.to_owned(), value: value.to_owned() },
                );
            },
        };
        proof {
            lemma_lower_name(name@);
        }
        Ok(Header { name: checked_name, value: checked_value })
    }
}

impl Clone for Header {
    fn clone(&self) -> (r: Header)
        ensures
            r@ == self@,
    {
        proof {
            use_type_invariant(self);
        }
        Header { name: self.name.clone(), value: self.value.clone() }
    }
}

/// Finds the first `=` of `s`.
fn find_separator(s: &[char]) -> (r: usize)
    ensures
        r == separator(s@),
        r <= s@.len(),
        forall|i: int| 0 <= i < r ==> s@[i] != '=',
        r < s@.len() ==> s@[r as int] == '=',
{
    let mut i: usize = 0;
    while i < s.len() && s[i] != '='
        invariant
            i <= s@.len(),
            separator(s@) == separator_from(s@, i as int),
            forall|k: int| 0 <= k < i ==> s@[k] != '=',
        decreases s@.len() - i,
    {
        i = i + 1;
    }
    i
}

/// Parse a single key-value pair, written as the name, `=` and the value.
/// The first `=` parts the two, so that the value may hold more of them.
pub fn parse_header(s: &str) -> (r: Result<Header, ArgsError>)
    ensures
        match r {
            Ok(header) => separator(s@) < s@.len() && header_of(
                s@.subrange(0, separator(s@)),
                s@.subrange(separator(s@) + 1, s@.len() as int),
            ) == Some(header@),
            Err(ArgsError::HeaderSyntax(given)) => separator(s@) == s@.len() && given@ == s@,
            Err(error) => separator(s@) < s@.len() && names_bad_header(
                error,
                s@.subrange(0, separator(s@)),
                s@.subrange(separator(s@) + 1, s@.len() as int),
            ),
        },
{
    let v = chars_of(s);
    let at = find_separator(v.as_slice());
    if at == v.len() {
        return Err(ArgsError::HeaderSyntax(s.to_owned()));
    }
    let name = s.substring_char(0, at);
    let value = s.substring_char(at + 1, v.len());
    match name_from_bytes(name) {
        Err(_) => Err(ArgsError::HeaderName { name: name.to_owned(), value: value.to_owned() }),
        Ok(checked_name) => match value_from_str(value) {
            Err(_) => Err(
                ArgsError::HeaderValue { name: name.to_owned(), value: value.to_owned() },
            ),
            Ok(checked_value) => {
                proof {
                    lemma_lower_name(name@);
                }
                Ok(Header { name: checked_name, value: checked_value })
            },
        },
    }
}

} // verus!
