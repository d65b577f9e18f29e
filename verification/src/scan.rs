//! What the raw tokenizer computes, as functions of the source text and a
//! position in it.

use vstd::prelude::*;
use crate::text::{CharClass, spec_is_digit, spec_is_line_break, spec_is_operator, spec_starts_word};
use crate::token::{Location, TokenEnum, TokenView, spec_eof};

verus! {

/// The number of characters consumed since the last line break before `pos`.
pub open spec fn column_at(input: Seq<char>, pos: int) -> nat
    decreases pos,
{
    if pos <= 0 || pos > input.len() {
        0
    } else if spec_is_line_break(input[pos - 1]) {
        0
    } else {
        column_at(input, pos - 1) + 1
    }
}

/// The number of line breaks among the first `pos` characters.
pub open spec fn row_at(input: Seq<char>, pos: int) -> nat
    decreases pos,
{
    if pos <= 0 || pos > input.len() {
        0
    } else if spec_is_line_break(input[pos - 1]) {
        row_at(input, pos - 1) + 1
    } else {
        row_at(input, pos - 1)
    }
}

/// The location reached when the first `pos` characters have been consumed.
pub open spec fn location_at(input: Seq<char>, pos: int) -> Location {
    Location {
        column: column_at(input, pos) as usize,
        row: row_at(input, pos) as usize,
        absolute: pos as usize,
    }
}

/// Row and column never run ahead of the number of characters consumed.
pub proof fn lemma_location_bounds(input: Seq<char>, pos: int)
    requires
        0 <= pos <= input.len(),
    ensures
        column_at(input, pos) + row_at(input, pos) <= pos,
    decreases pos,
{
    if pos > 0 {
        lemma_location_bounds(input, pos - 1);
    }
}

/// The end of the maximal run of characters of `class` that starts at `from`.
pub open spec fn run_end(input: Seq<char>, from: int, class: CharClass) -> int
    decreases input.len() - from,
{
    if 0 <= from < input.len() && class.holds(input[from]) {
        run_end(input, from + 1, class)
    } else {
        from
    }
}

/// A run ends inside the text, consists of characters of the class, and is
/// followed by none.
pub proof fn lemma_run_end(input: Seq<char>, from: int, class: CharClass)
    requires
        0 <= from <= input.len(),
    ensures
        from <= run_end(input, from, class) <= input.len(),
        forall|i: int| from <= i < run_end(input, from, class) ==> class.holds(#[trigger] input[i]),
        run_end(input, from, class) < input.len() ==> !class.holds(
            input[run_end(input, from, class)],
        ),
    decreases input.len() - from,
{
    if from < input.len() && class.holds(input[from]) {
        lemma_run_end(input, from + 1, class);
    }
}

/// The kind of a run of operator characters.
pub open spec fn operator_kind(lexeme: Seq<char>) -> TokenEnum {
    if lexeme == "="@ {
        TokenEnum::EQUALSSIGN
    } else if lexeme == "->"@ {
        TokenEnum::ARROW
    } else if lexeme == "::"@ {
        TokenEnum::TYPEDECL
    } else {
        TokenEnum::OPERATOR
    }
}

/// The kind of a word: one of the nine keywords, or a name.
pub open spec fn spec_name_or_keyword(lexeme: Seq<char>) -> TokenEnum {
    if lexeme == "module"@ {
        TokenEnum::MODULE
    } else if lexeme == "class"@ {
        TokenEnum::CLASS
    } else if lexeme == "instance"@ {
        TokenEnum::INSTANCE
    } else if lexeme == "where"@ {
        TokenEnum::WHERE
    } else if lexeme == "let"@ {
        TokenEnum::LET
    } else if lexeme == "in"@ {
        TokenEnum::IN
    } else if lexeme == "case"@ {
        TokenEnum::CASE
    } else if lexeme == "of"@ {
        TokenEnum::OF
    } else if lexeme == "data"@ {
        TokenEnum::DATA
    } else {
        TokenEnum::NAME
    }
}

/// The kind of a character that stands for itself. A character that starts
/// no token at all is taken for the end of the input.
pub open spec fn punctuation_kind(c: char) -> TokenEnum {
    if c == ';' {
        TokenEnum::SEMICOLON
    } else if c == '(' {
        TokenEnum::LPARENS
    } else if c == ')' {
        TokenEnum::RPARENS
    } else if c == '[' {
        TokenEnum::LBRACKET
    } else if c == ']' {
        TokenEnum::RBRACKET
    } else if c == '{' {
        TokenEnum::LBRACE
    } else if c == '}' {
        TokenEnum::RBRACE
    } else if c == ',' {
        TokenEnum::COMMA
    } else {
        TokenEnum::EOF
    }
}

/// Whether a decimal point and at least one digit stand at `at`.
pub open spec fn has_fraction(input: Seq<char>, at: int) -> bool {
    0 <= at && at + 1 < input.len() && input[at] == '.' && spec_is_digit(input[at + 1])
}

/// Where the token that starts at `start` ends.
pub open spec fn token_end(input: Seq<char>, start: int) -> int
    recommends
        0 <= start < input.len(),
{
    let c = input[start];
    if spec_is_operator(c) {
        run_end(input, start + 1, CharClass::Operator)
    } else if spec_is_digit(c) {
        let digits = run_end(input, start + 1, CharClass::Digit);
        if has_fraction(input, digits) {
            run_end(input, digits + 2, CharClass::Digit)
        } else {
            digits
        }
    } else if spec_starts_word(c) {
        run_end(input, start + 1, CharClass::Word)
    } else {
        start + 1
    }
}

/// The kind of the token that starts at `start`.
pub open spec fn token_kind(input: Seq<char>, start: int) -> TokenEnum
    recommends
        0 <= start < input.len(),
{
    let c = input[start];
    let lexeme = input.subrange(start, token_end(input, start));
    if spec_is_operator(c) {
        operator_kind(lexeme)
    } else if spec_is_digit(c) {
        if has_fraction(input, run_end(input, start + 1, CharClass::Digit)) {
            TokenEnum::FLOAT
        } else {
            TokenEnum::NUMBER
        }
    } else if spec_starts_word(c) {
        spec_name_or_keyword(lexeme)
    } else {
        punctuation_kind(c)
    }
}

pub proof fn lemma_token_end(input: Seq<char>, start: int)
    requires
        0 <= start < input.len(),
    ensures
        start < token_end(input, start) <= input.len(),
{
    lemma_run_end(input, start + 1, CharClass::Operator);
    lemma_run_end(input, start + 1, CharClass::Digit);
    lemma_run_end(input, start + 1, CharClass::Word);
    let digits = run_end(input, start + 1, CharClass::Digit);
    if has_fraction(input, digits) {
        lemma_run_end(input, digits + 2, CharClass::Digit);
    }
}

/// One step of the raw tokenizer.
pub struct RawToken {
    pub token: TokenView,
    /// Whether a line break was skipped in front of the token.
    pub newline: bool,
    /// The position behind the token.
    pub end: int,
}

/// Where the token after `pos` starts: behind the white space.
pub open spec fn token_start(input: Seq<char>, pos: int) -> int {
    run_end(input, pos, CharClass::Whitespace)
}

/// The raw token after position `pos`. White space is skipped; at the end of
/// the text the token is `EOF`; otherwise the token is the maximal run that
/// its first character starts, located where that character was consumed.
pub open spec fn raw_token(input: Seq<char>, pos: int) -> RawToken {
    let start = token_start(input, pos);
    let newline = row_at(input, start) != row_at(input, pos);
    if start >= input.len() {
        RawToken { token: spec_eof(), newline, end: start }
    } else {
        let end = token_end(input, start);
        RawToken {
            token: TokenView {
                kind: token_kind(input, start),
                lexeme: input.subrange(start, end),
                location: location_at(input, start + 1),
            },
            newline,
            end,
        }
    }
}

/// A raw token is never virtual, and the tokenizer never moves backwards.
pub proof fn lemma_raw_token(input: Seq<char>, pos: int)
    requires
        0 <= pos <= input.len(),
    ensures
        pos <= raw_token(input, pos).end <= input.len(),
        !raw_token(input, pos).token.kind.is_virtual(),
        pos < input.len() ==> pos < raw_token(input, pos).end,
{
    lemma_run_end(input, pos, CharClass::Whitespace);
    let start = token_start(input, pos);
    if start < input.len() {
        lemma_token_end(input, start);
    }
}

} // verus!
