//! Character classes and the few string operations the front end needs.

use vstd::prelude::*;

verus! {

/// Whether `char::is_whitespace` holds of `c` (the Unicode `White_Space` property).
pub uninterp spec fn is_whitespace_char(c: char) -> bool;

/// Whether `char::is_alphabetic` holds of `c` (the Unicode `Alphabetic` property).
pub uninterp spec fn is_alphabetic_char(c: char) -> bool;

/// Whether `char::is_alphanumeric` holds of `c`.
pub uninterp spec fn is_alphanumeric_char(c: char) -> bool;

/// Whether `char::is_uppercase` holds of `c` (the Unicode `Uppercase` property).
pub uninterp spec fn is_uppercase_char(c: char) -> bool;

/// `char::is_whitespace` is a function of the character alone; its table is
/// not restated here, only named.
pub assume_specification[ char::is_whitespace ](c: char) -> (r: bool)
    ensures
        r == is_whitespace_char(c),
;

/// `char::is_alphabetic` is a function of the character alone.
pub assume_specification[ char::is_alphabetic ](c: char) -> (r: bool)
    ensures
        r == is_alphabetic_char(c),
;

/// `char::is_alphanumeric` is a function of the character alone.
pub assume_specification[ char::is_alphanumeric ](c: char) -> (r: bool)
    ensures
        r == is_alphanumeric_char(c),
;

/// `char::is_uppercase` is a function of the character alone.
pub assume_specification[ char::is_uppercase ](c: char) -> (r: bool)
    ensures
        r == is_uppercase_char(c),
;

/// `String::push` appends the character at the end and changes nothing else.
pub assume_specification[ String::push ](s: &mut String, c: char)
    ensures
        final(s)@ == old(s)@.push(c),
;

/// `==` on `str` holds exactly when both hold the same characters in the same order.
pub assume_specification[ <str as PartialEq>::eq ](a: &str, b: &str) -> (r: bool)
    ensures
        r == (a@ == b@),
;

/// The characters an operator is made of.
pub open spec fn spec_is_operator(c: char) -> bool {
    c == '+' || c == '-' || c == '*' || c == '/' || c == '.' || c == '$' || c == ':' || c == '='
        || c == '<' || c == '>' || c == '|' || c == '&'
}

pub fn is_operator(first_char: char) -> (r: bool)
    ensures
        r == spec_is_operator(first_char),
{
    match first_char {
        '+' => true,
        '-' => true,
        '*' => true,
        '/' => true,
        '.' => true,
        '$' => true,
        ':' => true,
        '=' => true,
        '<' => true,
        '>' => true,
        '|' => true,
        '&' => true,
        _ => false,
    }
}

/// The decimal digits `0` to `9`.
pub open spec fn spec_is_digit(c: char) -> bool {
    '0' <= c && c <= '9'
}

pub fn is_digit(c: char) -> (r: bool)
    ensures
        r == spec_is_digit(c),
{
    c >= '0' && c <= '9'
}

/// The classes of characters of which the tokenizer consumes maximal runs.
#[derive(Clone, Copy, PartialEq, Eq, Structural, Debug)]
pub enum CharClass {
    Whitespace,
    Operator,
    Digit,
    /// Letters, digits and `_`: what may follow the first character of a name.
    Word,
}

impl CharClass {
    pub open spec fn holds(self, c: char) -> bool {
        match self {
            CharClass::Whitespace => is_whitespace_char(c),
            CharClass::Operator => spec_is_operator(c),
            CharClass::Digit => spec_is_digit(c),
            CharClass::Word => is_alphanumeric_char(c) || c == '_',
        }
    }

    pub fn test(self, c: char) -> (r: bool)
        ensures
            r == self.holds(c),
    {
        match self {
            CharClass::Whitespace => c.is_whitespace(),
            CharClass::Operator => is_operator(c),
            CharClass::Digit => is_digit(c),
            CharClass::Word => c.is_alphanumeric() || c == '_',
        }
    }
}

/// Whether a name may start with `c`: a letter or `_`.
pub open spec fn spec_starts_word(c: char) -> bool {
    is_alphabetic_char(c) || c == '_'
}

pub fn starts_word(c: char) -> (r: bool)
    ensures
        r == spec_starts_word(c),
{
    c.is_alphabetic() || c == '_'
}

/// Whether `c` ends a line. Carriage return and line feed count alike, and a
/// pair of them is two line breaks.
pub open spec fn spec_is_line_break(c: char) -> bool {
    c == '\n' || c == '\r'
}

pub fn is_line_break(c: char) -> (r: bool)
    ensures
        r == spec_is_line_break(c),
{
    c == '\n' || c == '\r'
}

} // verus!
