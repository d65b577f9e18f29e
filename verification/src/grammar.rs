//! The grammar of expressions and bindings, as functions from the state of
//! the lexer to what is parsed and the state that is left.

use vstd::prelude::*;
use crate::ast::{ExprV, PatternV};
use crate::context::ParseContext;
use crate::decl::{BindingV, let_pairs, spec_undeclared};
use crate::error::ParseError;
use crate::grammar_types::pattern;
use crate::layout::{LexerView, lemma_next};
use crate::sugar::{
    apply_all, lambda_all, spec_list, spec_parse_number, spec_precedence, spec_tuple,
};
use crate::token::TokenEnum;

verus! {

/// What a parsing function yields: a value and the state of the lexer behind
/// it, or the error on which parsing stops.
pub type Parsed<T> = Result<(T, LexerView), ParseError>;

/// A state that a parser can reach from `before`: well formed, over the
/// same text, and with no more work left than `before` had.
pub open spec fn follows(after: LexerView, before: LexerView) -> bool {
    after.wf() && after.input == before.input && after.potential() <= before.potential()
}

/// Whether the reader stands on an operator.
pub open spec fn at_operator(m: LexerView) -> bool {
    m.valid() && m.current().kind == TokenEnum::OPERATOR
}

pub open spec fn operator_flag(m: LexerView) -> nat {
    if at_operator(m) {
        1
    } else {
        0
    }
}

/// Like `follows`, with less work left, or as much of it and no operator
/// under the reader where `before` had one.
pub open spec fn precedes(after: LexerView, before: LexerView) -> bool {
    &&& after.wf()
    &&& after.input == before.input
    &&& after.potential() < before.potential() || (after.potential() == before.potential()
        && operator_flag(after) < operator_flag(before))
}

/// `r`, known to leave a state that follows `before`. Every parsing function
/// does, as the lemmas of `progress` show; the definitions below say so
/// where they need it in order to recurse.
pub open spec fn checked<T>(r: Parsed<T>, before: LexerView) -> Parsed<T> {
    match r {
        Ok((_, m)) => if follows(m, before) {
            r
        } else {
            Err(arbitrary())
        },
        Err(_) => r,
    }
}

/// One request for a token in the position `ctx`.
pub open spec fn token(m: LexerView, ctx: ParseContext) -> Result<LexerView, ParseError> {
    match m.next(ctx) {
        Some(n) => Ok(n),
        None => Err(ParseError::UnmatchedBrace),
    }
}

/// The next token, which has to be of kind `kind`.
pub open spec fn require(m: LexerView, kind: TokenEnum) -> Result<LexerView, ParseError> {
    match token(m, ParseContext::Anything) {
        Ok(n) => if n.current().kind == kind {
            Ok(n)
        } else {
            Err(ParseError::Expected(kind))
        },
        Err(e) => Err(e),
    }
}

/// What an operator makes of its operands. Where one of them is missing the
/// result is a section, a function of the missing operand `#`; a `-` without
/// a left operand is `negate`. Without any operand there is no expression.
pub open spec fn combine(lhs: Option<ExprV>, op: Seq<char>, rhs: Option<ExprV>) -> Option<ExprV> {
    let name = ExprV::Identifier(op);
    let hole = ExprV::Identifier("#"@);
    match (lhs, rhs) {
        (Some(l), Some(r)) => Some(apply_all(name, seq![l, r])),
        (Some(l), None) => Some(ExprV::Lambda("#"@, Box::new(apply_all(name, seq![l, hole])))),
        (None, Some(r)) => if op == "-"@ {
            Some(apply_all(ExprV::Identifier("negate"@), seq![r]))
        } else {
            Some(ExprV::Lambda("#"@, Box::new(apply_all(name, seq![hole, r]))))
        },
        (None, None) => None,
    }
}

/// `sub_expr := '(' expression (',' expression)* ')' | '[' ... ']'
///            | 'let' '{' binding (';' binding)* '}' 'in' expression
///            | 'case' expression 'of' '{' alternative (';' alternative)* '}'
///            | NAME | NUMBER`.
/// Where the next token starts none of these the reader steps back over it
/// and there is no expression.
pub open spec fn sub_expression(m: LexerView, ctx: ParseContext) -> Parsed<Option<ExprV>>
    decreases m.potential(), 0nat, 0nat,
    when m.wf()
{
    match token(m, ctx) {
        Err(e) => Err(e),
        Ok(m1) => {
            proof {
                lemma_next(m, ctx);
            }
            let t = m1.current();
            match t.kind {
                TokenEnum::LPARENS => parenthesized(m1),
                TokenEnum::LBRACKET => list(m1),
                TokenEnum::LET => let_expression(m1),
                TokenEnum::CASE => case_expression(m1),
                TokenEnum::NAME => Ok((Some(ExprV::Identifier(t.lexeme)), m1)),
                TokenEnum::NUMBER => match spec_parse_number(t.lexeme) {
                    Some(v) => Ok((Some(ExprV::Number(v)), m1)),
                    None => Err(ParseError::NumberTooLarge),
                },
                _ => Ok((None, m1.backtrack())),
            }
        },
    }
}

/// Behind `(`: one expression, or several between commas, which make a
/// tuple, and `)`.
pub open spec fn parenthesized(m: LexerView) -> Parsed<Option<ExprV>>
    decreases m.potential(), 0nat, 9nat,
    when m.wf()
{
    match checked(expressions_sep(m, Seq::empty()), m) {
        Err(e) => Err(e),
        Ok((items, m1)) => if m1.current().kind != TokenEnum::RPARENS {
            Err(ParseError::Expected(TokenEnum::RPARENS))
        } else if items.len() == 1 {
            Ok((Some(items[0]), m1))
        } else {
            Ok((Some(spec_tuple(items)), m1))
        },
    }
}

/// Expressions between commas, at least one, behind those of `acc`. The
/// token that ends them is consumed.
pub open spec fn expressions_sep(m: LexerView, acc: Seq<ExprV>) -> Parsed<Seq<ExprV>>
    decreases m.potential(), 0nat, 8nat,
    when m.wf()
{
    match checked(expression_(m), m) {
        Err(e) => Err(e),
        Ok((e, m1)) => match token(m1, ParseContext::Anything) {
            Err(e) => Err(e),
            Ok(m2) => {
                proof {
                    lemma_next(m1, ParseContext::Anything);
                }
                if m2.current().kind == TokenEnum::COMMA {
                    expressions_sep(m2, acc.push(e))
                } else {
                    Ok((acc.push(e), m2))
                }
            },
        },
    }
}

/// Behind `[`: `]`, or expressions between commas and `]`.
pub open spec fn list(m: LexerView) -> Parsed<Option<ExprV>>
    decreases m.potential(), 0nat, 9nat,
    when m.wf()
{
    match checked(expression(m), m) {
        Err(e) => Err(e),
        Ok((None, m1)) => match require(m1, TokenEnum::RBRACKET) {
            Err(e) => Err(e),
            Ok(m2) => Ok((Some(spec_list(Seq::empty())), m2)),
        },
        Ok((Some(e), m1)) => list_of_items(list_rest(m1, seq![e])),
    }
}

/// The list that the members `r` make.
pub open spec fn list_of_items(r: Parsed<Seq<ExprV>>) -> Parsed<Option<ExprV>> {
    match r {
        Err(e) => Err(e),
        Ok((items, m)) => Ok((Some(spec_list(items)), m)),
    }
}

/// Behind a member of a list: `]`, or a comma and the members that follow.
pub open spec fn list_rest(m: LexerView, acc: Seq<ExprV>) -> Parsed<Seq<ExprV>>
    decreases m.potential(), 0nat, 8nat,
    when m.wf()
{
    match token(m, ParseContext::Anything) {
        Err(e) => Err(e),
        Ok(m1) => {
            proof {
                lemma_next(m, ParseContext::Anything);
            }
            if m1.current().kind == TokenEnum::COMMA {
                match checked(expression(m1), m1) {
                    Err(e) => Err(e),
                    Ok((Some(e), m2)) => list_rest(m2, acc.push(e)),
                    Ok((None, _)) => Err(ParseError::Expected(TokenEnum::RBRACKET)),
                }
            } else if m1.current().kind == TokenEnum::RBRACKET {
                Ok((acc, m1))
            } else {
                Err(ParseError::Expected(TokenEnum::RBRACKET))
            }
        },
    }
}

/// Behind `let`: the bindings in braces, `in`, and the body.
pub open spec fn let_expression(m: LexerView) -> Parsed<Option<ExprV>>
    decreases m.potential(), 0nat, 10nat,
    when m.wf()
{
    match require(m, TokenEnum::LBRACE) {
        Err(e) => Err(e),
        Ok(m1) => {
            proof {
                lemma_next(m, ParseContext::Anything);
            }
            match checked(bindings_sep(m1, Seq::empty()), m1) {
                Err(e) => Err(e),
                Ok((binds, m2)) => if m2.current().kind != TokenEnum::RBRACE {
                    Err(ParseError::Expected(TokenEnum::RBRACE))
                } else {
                    match token(m2, ParseContext::LetExpressionEnd) {
                        Err(e) => Err(e),
                        Ok(m3) => {
                            proof {
                                lemma_next(m2, ParseContext::LetExpressionEnd);
                            }
                            if m3.current().kind != TokenEnum::IN {
                                Err(ParseError::Expected(TokenEnum::IN))
                            } else {
                                match expression(m3) {
                                    Err(e) => Err(e),
                                    Ok((Some(body), m4)) => Ok(
                                        (Some(ExprV::Let(let_pairs(binds), Box::new(body))), m4),
                                    ),
                                    Ok((None, m4)) => Ok((None, m4)),
                                }
                            }
                        },
                    }
                },
            }
        },
    }
}

/// Behind `case`: the expression that is taken apart, `of`, and the
/// alternatives in braces.
pub open spec fn case_expression(m: LexerView) -> Parsed<Option<ExprV>>
    decreases m.potential(), 0nat, 10nat,
    when m.wf()
{
    match checked(expression_(m), m) {
        Err(e) => Err(e),
        Ok((scrutinee, m1)) => match require(m1, TokenEnum::OF) {
            Err(e) => Err(e),
            Ok(m2) => {
                proof {
                    lemma_next(m1, ParseContext::Anything);
                }
                match require(m2, TokenEnum::LBRACE) {
                    Err(e) => Err(e),
                    Ok(m3) => {
                        proof {
                            lemma_next(m2, ParseContext::Anything);
                        }
                        match alternatives_sep(m3, Seq::empty()) {
                            Err(e) => Err(e),
                            Ok((alternatives, m4)) => if m4.current().kind != TokenEnum::RBRACE {
                                Err(ParseError::Expected(TokenEnum::RBRACE))
                            } else {
                                Ok((Some(ExprV::Case(Box::new(scrutinee), alternatives)), m4))
                            },
                        }
                    },
                }
            },
        },
    }
}

/// `alternative := pattern '->' expression`.
pub open spec fn alternative(m: LexerView) -> Parsed<(PatternV, ExprV)>
    decreases m.potential(), 0nat, 8nat,
    when m.wf()
{
    match checked(pattern(m), m) {
        Err(e) => Err(e),
        Ok((p, m1)) => match require(m1, TokenEnum::ARROW) {
            Err(e) => Err(e),
            Ok(m2) => {
                proof {
                    lemma_next(m1, ParseContext::Anything);
                }
                match expression_(m2) {
                    Err(e) => Err(e),
                    Ok((e, m3)) => Ok(((p, e), m3)),
                }
            },
        },
    }
}

/// Alternatives between semicolons, at least one, behind those of `acc`.
/// The token that ends them is consumed.
pub open spec fn alternatives_sep(m: LexerView, acc: Seq<(PatternV, ExprV)>) -> Parsed<Seq<(PatternV, ExprV)>>
    decreases m.potential(), 0nat, 9nat,
    when m.wf()
{
    match checked(alternative(m), m) {
        Err(e) => Err(e),
        Ok((a, m1)) => match token(m1, ParseContext::Anything) {
            Err(e) => Err(e),
            Ok(m2) => {
                proof {
                    lemma_next(m1, ParseContext::Anything);
                }
                if m2.current().kind == TokenEnum::SEMICOLON {
                    alternatives_sep(m2, acc.push(a))
                } else {
                    Ok((acc.push(a), m2))
                }
            },
        },
    }
}

/// Bindings between semicolons, at least one, behind those of `acc`. The
/// token that ends them is consumed.
pub open spec fn bindings_sep(m: LexerView, acc: Seq<BindingV>) -> Parsed<Seq<BindingV>>
    decreases m.potential(), 0nat, 9nat,
    when m.wf()
{
    match checked(binding(m), m) {
        Err(e) => Err(e),
        Ok((b, m1)) => match token(m1, ParseContext::Anything) {
            Err(e) => Err(e),
            Ok(m2) => {
                proof {
                    lemma_next(m1, ParseContext::Anything);
                }
                if m2.current().kind == TokenEnum::SEMICOLON {
                    bindings_sep(m2, acc.push(b))
                } else {
                    Ok((acc.push(b), m2))
                }
            },
        },
    }
}

/// The name that a binding or a type declaration declares:
/// `NAME | '(' (NAME | OPERATOR) ')'`.
pub open spec fn declared_name(m: LexerView) -> Parsed<Seq<char>> {
    match token(m, ParseContext::NameOrLParens) {
        Err(e) => Err(e),
        Ok(m1) => if m1.current().kind == TokenEnum::LPARENS {
            match token(m1, ParseContext::NameOrOperator) {
                Err(e) => Err(e),
                Ok(m2) => if m2.current().kind != TokenEnum::NAME && m2.current().kind
                    != TokenEnum::OPERATOR {
                    Err(ParseError::ExpectedNameOrOperator(m2.current().kind))
                } else {
                    match token(m2, ParseContext::RParens) {
                        Err(e) => Err(e),
                        Ok(m3) => if m3.current().kind != TokenEnum::RPARENS {
                            Err(ParseError::Expected(TokenEnum::RPARENS))
                        } else {
                            Ok((m2.current().lexeme, m3))
                        },
                    }
                },
            }
        } else if m1.current().kind == TokenEnum::NAME {
            Ok((m1.current().lexeme, m1))
        } else {
            Err(ParseError::Expected(TokenEnum::NAME))
        },
    }
}

/// The parameters of a binding: the names up to the first token that is no
/// name, which is consumed.
pub open spec fn binding_arguments(m: LexerView, acc: Seq<Seq<char>>) -> Parsed<Seq<Seq<char>>>
    decreases m.potential(),
    when m.wf()
{
    match token(m, ParseContext::NameOrEqual) {
        Err(e) => Err(e),
        Ok(m1) => {
            proof {
                lemma_next(m, ParseContext::NameOrEqual);
            }
            if m1.current().kind == TokenEnum::NAME {
                binding_arguments(m1, acc.push(m1.current().lexeme))
            } else {
                Ok((acc, m1))
            }
        },
    }
}

/// `binding := (NAME | '(' (NAME | OPERATOR) ')') NAME* '=' expression`.
/// A binding with parameters binds a function of them.
pub open spec fn binding(m: LexerView) -> Parsed<BindingV>
    decreases m.potential(), 0nat, 8nat,
    when m.wf()
{
    match declared_name(m) {
        Err(e) => Err(e),
        Ok((name, m1)) => {
            proof {
                lemma_declared_name(m);
            }
            match binding_arguments(m1, Seq::empty()) {
                Err(e) => Err(e),
                Ok((params, m2)) => {
                    proof {
                        lemma_binding_arguments(m1, Seq::empty());
                    }
                    if m2.current().kind != TokenEnum::EQUALSSIGN {
                        Err(ParseError::Expected(TokenEnum::EQUALSSIGN))
                    } else {
                        match expression_(m2) {
                            Err(e) => Err(e),
                            Ok((body, m3)) => Ok(
                                (
                                    BindingV {
                                        name,
                                        expression: if params.len() > 0 {
                                            lambda_all(params, body)
                                        } else {
                                            body
                                        },
                                        type_decl: spec_undeclared(),
                                    },
                                    m3,
                                ),
                            ),
                        }
                    }
                },
            }
        },
    }
}

/// The name of a declaration costs at least one token.
pub proof fn lemma_declared_name(m: LexerView)
    requires
        m.wf(),
    ensures
        match declared_name(m) {
            Ok((_, n)) => follows(n, m) && n.potential() < m.potential() && n.valid(),
            Err(_) => true,
        },
{
    lemma_next(m, ParseContext::NameOrLParens);
    match token(m, ParseContext::NameOrLParens) {
        Ok(m1) => {
            lemma_next(m1, ParseContext::NameOrOperator);
            match token(m1, ParseContext::NameOrOperator) {
                Ok(m2) => {
                    lemma_next(m2, ParseContext::RParens);
                },
                Err(_) => {},
            }
        },
        Err(_) => {},
    }
}

pub proof fn lemma_binding_arguments(m: LexerView, acc: Seq<Seq<char>>)
    requires
        m.wf(),
    ensures
        match binding_arguments(m, acc) {
            Ok((_, n)) => follows(n, m) && n.valid(),
            Err(_) => true,
        },
    decreases m.potential(),
{
    lemma_next(m, ParseContext::NameOrEqual);
    match token(m, ParseContext::NameOrEqual) {
        Ok(m1) => {
            if m1.current().kind == TokenEnum::NAME {
                lemma_binding_arguments(m1, acc.push(m1.current().lexeme));
            }
        },
        Err(_) => {},
    }
}

/// An expression that has to be there.
pub open spec fn expression_(m: LexerView) -> Parsed<ExprV>
    decreases m.potential(), 0nat, 7nat,
    when m.wf()
{
    match expression(m) {
        Err(e) => Err(e),
        Ok((Some(e), m1)) => Ok((e, m1)),
        Ok((None, _)) => Err(ParseError::ExpectedExpression),
    }
}

/// `expression := application (OPERATOR application)*`, the operators
/// grouped by precedence.
pub open spec fn expression(m: LexerView) -> Parsed<Option<ExprV>>
    decreases m.potential(), 0nat, 6nat,
    when m.wf()
{
    match checked(application(m), m) {
        Err(e) => Err(e),
        Ok((app, m1)) => operator_expression(m1, app, 0),
    }
}

/// `application := sub_expr sub_expr*`: the first operand applied to those
/// that follow it.
pub open spec fn application(m: LexerView) -> Parsed<Option<ExprV>>
    decreases m.potential(), 0nat, 2nat,
    when m.wf()
{
    match checked(sub_expression(m, ParseContext::Anything), m) {
        Err(e) => Err(e),
        Ok((None, m1)) => Ok((None, m1)),
        Ok((Some(f), m1)) => match application_arguments(m1, Seq::empty()) {
            Err(e) => Err(e),
            Ok((args, m2)) => Ok((Some(apply_all(f, args)), m2)),
        },
    }
}

/// The operands that follow, behind those of `acc`.
pub open spec fn application_arguments(m: LexerView, acc: Seq<ExprV>) -> Parsed<Seq<ExprV>>
    decreases m.potential(), 0nat, 1nat,
    when m.wf()
{
    match checked(sub_expression(m, ParseContext::Application), m) {
        Err(e) => Err(e),
        Ok((None, m1)) => Ok((acc, m1)),
        Ok((Some(e), m1)) => if m1.potential() < m.potential() {
            application_arguments(m1, acc.push(e))
        } else {
            Err(arbitrary())
        },
    }
}

/// The operators behind the operand `lhs`, as far as they bind at least as
/// strongly as `min_precedence`. The token that ends them is left unread.
pub open spec fn operator_expression(m: LexerView, lhs: Option<ExprV>, min_precedence: int) -> Parsed<Option<ExprV>>
    decreases m.potential(), 0nat, 5nat,
    when m.wf()
{
    match token(m, ParseContext::Anything) {
        Err(e) => Err(e),
        Ok(m1) => {
            proof {
                lemma_next(m, ParseContext::Anything);
            }
            operator_loop(m1, lhs, min_precedence)
        },
    }
}

/// The same, with the reader already on the token behind `lhs`. An operator
/// of sufficient precedence takes `lhs` as its left operand; its right
/// operand is the application behind it, extended by every operator that
/// binds more strongly. Operators of equal precedence group to the left.
pub open spec fn operator_loop(m: LexerView, lhs: Option<ExprV>, min_precedence: int) -> Parsed<Option<ExprV>>
    decreases m.potential(), operator_flag(m), 3nat,
    when m.wf()
{
    if at_operator(m) && spec_precedence(m.current().lexeme) >= min_precedence {
        let op = m.current().lexeme;
        match checked(application(m), m) {
            Err(e) => Err(e),
            Ok((rhs, m1)) => match token(m1, ParseContext::Anything) {
                Err(e) => Err(e),
                Ok(m2) => {
                    proof {
                        lemma_next(m1, ParseContext::Anything);
                    }
                    operator_tail(
                        operator_rhs(m2, rhs, spec_precedence(op)),
                        m,
                        lhs,
                        min_precedence,
                    )
                },
            },
        }
    } else {
        Ok((lhs, m.backtrack()))
    }
}

/// What follows once the right operand `r` of the operator under the reader
/// of `m` is complete: the operator is applied, and the result is the left
/// operand of whatever operator comes next.
pub open spec fn operator_tail(
    r: Parsed<Option<ExprV>>,
    m: LexerView,
    lhs: Option<ExprV>,
    min_precedence: int,
) -> Parsed<Option<ExprV>>
    decreases m.potential(), operator_flag(m), 2nat,
    when m.wf()
{
    match r {
        Err(e) => Err(e),
        Ok((rhs, m3)) => match combine(lhs, m.current().lexeme, rhs) {
            None => Ok((None, m3)),
            Some(e) => if precedes(m3, m) {
                operator_loop(m3, Some(e), min_precedence)
            } else {
                Err(arbitrary())
            },
        },
    }
}

/// The right operand `rhs` of an operator of precedence `precedence`, with
/// the reader on the token behind it: as long as that token is an operator
/// that binds more strongly, it and what follows it belong to the operand.
pub open spec fn operator_rhs(m: LexerView, rhs: Option<ExprV>, precedence: int) -> Parsed<Option<ExprV>>
    decreases m.potential(), operator_flag(m), 4nat,
    when m.wf()
{
    if at_operator(m) && spec_precedence(m.current().lexeme) > precedence {
        match checked(operator_loop(m, rhs, spec_precedence(m.current().lexeme)), m) {
            Err(e) => Err(e),
            Ok((rhs, m1)) => match token(m1, ParseContext::Anything) {
                Err(e) => Err(e),
                Ok(m2) => {
                    proof {
                        lemma_next(m1, ParseContext::Anything);
                    }
                    operator_rhs(m2, rhs, precedence)
                },
            },
        }
    } else {
        Ok((rhs, m))
    }
}

} // verus!
