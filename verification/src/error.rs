//! The errors of the parser. None is recovered from.

use vstd::prelude::*;
use vstd::string::*;
use crate::token::TokenEnum;

verus! {

#[derive(Clone, Copy, PartialEq, Eq, Structural, Debug)]
pub enum ParseError {
    /// A token of another kind stands where one of this kind is due.
    Expected(TokenEnum),
    /// A token of this kind follows the closing brace of the module.
    UnexpectedAfterModule(TokenEnum),
    /// Inside the parentheses on the left of a binding stands neither a name
    /// nor an operator, but a token of this kind.
    ExpectedNameOrOperator(TokenEnum),
    /// No expression starts where one is due.
    ExpectedExpression,
    /// The head of an instance is a type variable.
    ExpectedTypeOperator,
    /// `=>` follows a type that is no class constraint.
    ExpectedTypeContext,
    /// A context holds a member that is no class constraint.
    ExpectedConstraint,
    /// A constructor names a type variable that the data type does not bind.
    UndefinedTypeParameter,
    /// No pattern starts where one is due, or a variable is given arguments.
    InvalidPattern,
    /// A number literal does not fit the machine's integers.
    NumberTooLarge,
    /// A `}` of the source closes no `{` of the source.
    UnmatchedBrace,
    /// A declaration's name and parameters are longer than the lexer's
    /// buffer of produced tokens can hold.
    LookaheadTooDeep,
}

impl ParseError {
    /// The one line that tells the user what went wrong.
    pub open spec fn spec_message(self) -> Seq<char> {
        match self {
            ParseError::Expected(kind) => "Expected "@ + kind.spec_name(),
            ParseError::UnexpectedAfterModule(kind) => "Unexpected token after end of module, "@
                + kind.spec_name(),
            ParseError::ExpectedNameOrOperator(kind) =>
                "Expected NAME or OPERATOR on left side of binding "@ + kind.spec_name(),
            ParseError::ExpectedExpression => "Failed to parse expression"@,
            ParseError::ExpectedTypeOperator => "Expected type operator"@,
            ParseError::ExpectedTypeContext => "Expected type context since '=>' was parsed"@,
            ParseError::ExpectedConstraint => "Expected TypeOperator when creating constraints"@,
            ParseError::UndefinedTypeParameter => "Undefined type parameter"@,
            ParseError::InvalidPattern => "Error parsing pattern"@,
            ParseError::NumberTooLarge => "Number literal is too large"@,
            ParseError::UnmatchedBrace => "Closing brace without an opening brace"@,
            ParseError::LookaheadTooDeep => "Too many tokens before '=' or '::'"@,
        }
    }

    pub fn message(&self) -> (r: String)
        ensures
            r@ == self.spec_message(),
    {
        match self {
            ParseError::Expected(kind) => parse_error(*kind),
            ParseError::UnexpectedAfterModule(kind) => {
                let mut text = "Unexpected token after end of module, ".to_owned();
                text.append(kind.name());
                text
            },
            ParseError::ExpectedNameOrOperator(kind) => {
                let mut text = "Expected NAME or OPERATOR on left side of binding ".to_owned();
                text.append(kind.name());
                text
            },
            ParseError::ExpectedExpression => "Failed to parse expression".to_owned(),
            ParseError::ExpectedTypeOperator => "Expected type operator".to_owned(),
            ParseError::ExpectedTypeContext => "Expected type context since '=>' was parsed".to_owned(),
            ParseError::ExpectedConstraint => "Expected TypeOperator when creating constraints".to_owned(),
            ParseError::UndefinedTypeParameter => "Undefined type parameter".to_owned(),
            ParseError::InvalidPattern => "Error parsing pattern".to_owned(),
            ParseError::NumberTooLarge => "Number literal is too large".to_owned(),
            ParseError::UnmatchedBrace => "Closing brace without an opening brace".to_owned(),
            ParseError::LookaheadTooDeep => "Too many tokens before '=' or '::'".to_owned(),
        }
    }
}

/// The message for a token of another kind than the one that is due.
pub fn parse_error(expected: TokenEnum) -> (r: String)
    ensures
        r@ == ParseError::Expected(expected).spec_message(),
{
    let mut text = "Expected ".to_owned();
    text.append(expected.name());
    text
}

} // verus!
