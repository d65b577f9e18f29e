//! What the parser tells the layout engine: in which grammatical position it
//! stands, and therefore which kinds of token it could not accept next.

use vstd::prelude::*;
use crate::token::TokenEnum;

verus! {

/// A position in the grammar. Each one rejects every token kind outside a
/// short list; the layout engine closes an implicit block in front of a
/// rejected token.
#[derive(Clone, Copy, PartialEq, Eq, Structural, Debug)]
pub enum ParseContext {
    /// Nothing is rejected.
    Anything,
    TopLevel,
    TopLevelNewBind,
    Binding,
    Constructor,
    SubExpression,
    LetExpressionEnd,
    Application,
    NameOrLParens,
    Identifier,
    NameOrOperator,
    NameOrEqual,
    RParens,
    TypeParse,
}

impl ParseContext {
    /// Whether a token of kind `kind` is a syntax error in this position.
    pub open spec fn rejects(self, kind: TokenEnum) -> bool {
        match self {
            ParseContext::Anything => false,
            ParseContext::TopLevel => kind != TokenEnum::NAME && kind != TokenEnum::RBRACKET && kind
                != TokenEnum::SEMICOLON && kind != TokenEnum::DATA && kind != TokenEnum::LPARENS
                && kind != TokenEnum::CLASS && kind != TokenEnum::INSTANCE,
            ParseContext::TopLevelNewBind => kind != TokenEnum::RBRACKET && kind
                != TokenEnum::SEMICOLON,
            ParseContext::Binding => kind != TokenEnum::EQUALSSIGN && kind != TokenEnum::NAME
                && kind != TokenEnum::TYPEDECL && kind != TokenEnum::OPERATOR && kind
                != TokenEnum::RPARENS,
            ParseContext::Constructor => kind != TokenEnum::NAME && kind != TokenEnum::OPERATOR
                && kind != TokenEnum::LPARENS,
            ParseContext::SubExpression => kind != TokenEnum::LPARENS && kind != TokenEnum::LET
                && kind != TokenEnum::CASE && kind != TokenEnum::NAME && kind != TokenEnum::NUMBER
                && kind != TokenEnum::FLOAT && kind != TokenEnum::SEMICOLON && kind
                != TokenEnum::LBRACKET,
            ParseContext::LetExpressionEnd => kind != TokenEnum::IN,
            ParseContext::Application => kind != TokenEnum::LPARENS && kind != TokenEnum::RPARENS
                && kind != TokenEnum::LBRACKET && kind != TokenEnum::RBRACKET && kind
                != TokenEnum::LET && kind != TokenEnum::OF && kind != TokenEnum::NAME && kind
                != TokenEnum::NUMBER && kind != TokenEnum::FLOAT && kind != TokenEnum::OPERATOR
                && kind != TokenEnum::SEMICOLON && kind != TokenEnum::COMMA,
            ParseContext::NameOrLParens => kind != TokenEnum::NAME && kind != TokenEnum::LPARENS,
            ParseContext::Identifier => kind != TokenEnum::NAME,
            ParseContext::NameOrOperator => kind != TokenEnum::NAME && kind != TokenEnum::OPERATOR,
            ParseContext::NameOrEqual => kind != TokenEnum::NAME && kind != TokenEnum::EQUALSSIGN,
            ParseContext::RParens => kind != TokenEnum::RPARENS,
            ParseContext::TypeParse => kind != TokenEnum::ARROW && kind != TokenEnum::SEMICOLON
                && kind != TokenEnum::RBRACE && kind != TokenEnum::RPARENS && kind
                != TokenEnum::RBRACKET,
        }
    }

    pub fn is_error(self, kind: TokenEnum) -> (r: bool)
        ensures
            r == self.rejects(kind),
    {
        match self {
            ParseContext::Anything => false,
            ParseContext::TopLevel => toplevel_error(kind),
            ParseContext::TopLevelNewBind => toplevel_new_bind_error(kind),
            ParseContext::Binding => binding_error(kind),
            ParseContext::Constructor => constructor_error(kind),
            ParseContext::SubExpression => sub_expression_error(kind),
            ParseContext::LetExpressionEnd => let_expression_end_error(kind),
            ParseContext::Application => application_error(kind),
            ParseContext::NameOrLParens => error_if_not_name_or_lparens(kind),
            ParseContext::Identifier => error_if_not_identifier(kind),
            ParseContext::NameOrOperator => error_if_not_name_or_operator(kind),
            ParseContext::NameOrEqual => error_if_not_name_or_equal(kind),
            ParseContext::RParens => error_if_not_rparens(kind),
            ParseContext::TypeParse => type_parse_error(kind),
        }
    }
}

/// Between the declarations of a module.
pub fn toplevel_error(kind: TokenEnum) -> (r: bool)
    ensures
        r == ParseContext::TopLevel.rejects(kind),
{
    kind != TokenEnum::NAME && kind != TokenEnum::RBRACKET && kind != TokenEnum::SEMICOLON && kind
        != TokenEnum::DATA && kind != TokenEnum::LPARENS && kind != TokenEnum::CLASS && kind
        != TokenEnum::INSTANCE
}

/// After a complete declaration of a module.
pub fn toplevel_new_bind_error(kind: TokenEnum) -> (r: bool)
    ensures
        r == ParseContext::TopLevelNewBind.rejects(kind),
{
    kind != TokenEnum::RBRACKET && kind != TokenEnum::SEMICOLON
}

/// On the left of a binding or a type declaration.
pub fn binding_error(kind: TokenEnum) -> (r: bool)
    ensures
        r == ParseContext::Binding.rejects(kind),
{
    kind != TokenEnum::EQUALSSIGN && kind != TokenEnum::NAME && kind != TokenEnum::TYPEDECL && kind
        != TokenEnum::OPERATOR && kind != TokenEnum::RPARENS
}

/// Among the argument types of a data constructor.
pub fn constructor_error(kind: TokenEnum) -> (r: bool)
    ensures
        r == ParseContext::Constructor.rejects(kind),
{
    kind != TokenEnum::NAME && kind != TokenEnum::OPERATOR && kind != TokenEnum::LPARENS
}

/// Where an operand must begin.
pub fn sub_expression_error(kind: TokenEnum) -> (r: bool)
    ensures
        r == ParseContext::SubExpression.rejects(kind),
{
    kind != TokenEnum::LPARENS && kind != TokenEnum::LET && kind != TokenEnum::CASE && kind
        != TokenEnum::NAME && kind != TokenEnum::NUMBER && kind != TokenEnum::FLOAT && kind
        != TokenEnum::SEMICOLON && kind != TokenEnum::LBRACKET
}

/// After the bindings of a `let`.
pub fn let_expression_end_error(kind: TokenEnum) -> (r: bool)
    ensures
        r == ParseContext::LetExpressionEnd.rejects(kind),
{
    kind != TokenEnum::IN
}

/// Among the arguments of an application.
pub fn application_error(kind: TokenEnum) -> (r: bool)
    ensures
        r == ParseContext::Application.rejects(kind),
{
    kind != TokenEnum::LPARENS && kind != TokenEnum::RPARENS && kind != TokenEnum::LBRACKET && kind
        != TokenEnum::RBRACKET && kind != TokenEnum::LET && kind != TokenEnum::OF && kind
        != TokenEnum::NAME && kind != TokenEnum::NUMBER && kind != TokenEnum::FLOAT && kind
        != TokenEnum::OPERATOR && kind != TokenEnum::SEMICOLON && kind != TokenEnum::COMMA
}

pub fn error_if_not_name_or_lparens(kind: TokenEnum) -> (r: bool)
    ensures
        r == ParseContext::NameOrLParens.rejects(kind),
{
    kind != TokenEnum::NAME && kind != TokenEnum::LPARENS
}

pub fn error_if_not_identifier(kind: TokenEnum) -> (r: bool)
    ensures
        r == ParseContext::Identifier.rejects(kind),
{
    kind != TokenEnum::NAME
}

pub fn error_if_not_name_or_operator(kind: TokenEnum) -> (r: bool)
    ensures
        r == ParseContext::NameOrOperator.rejects(kind),
{
    kind != TokenEnum::NAME && kind != TokenEnum::OPERATOR
}

pub fn error_if_not_name_or_equal(kind: TokenEnum) -> (r: bool)
    ensures
        r == ParseContext::NameOrEqual.rejects(kind),
{
    kind != TokenEnum::NAME && kind != TokenEnum::EQUALSSIGN
}

pub fn error_if_not_rparens(kind: TokenEnum) -> (r: bool)
    ensures
        r == ParseContext::RParens.rejects(kind),
{
    kind != TokenEnum::RPARENS
}

/// After a type.
pub fn type_parse_error(kind: TokenEnum) -> (r: bool)
    ensures
        r == ParseContext::TypeParse.rejects(kind),
{
    kind != TokenEnum::ARROW && kind != TokenEnum::SEMICOLON && kind != TokenEnum::RBRACE && kind
        != TokenEnum::RPARENS && kind != TokenEnum::RBRACKET
}

} // verus!
