//! Laws of the grammar that relate several of its functions.

use vstd::prelude::*;
use crate::ast::ExprV;
use crate::context::ParseContext;
use crate::error::ParseError;
use crate::grammar::{
    application, application_arguments, at_operator, checked, combine, expression, follows,
    operator_expression, operator_loop, operator_rhs, operator_tail, precedes, sub_expression,
    token,
};
use crate::layout::{LexerView, lemma_backtrack, lemma_backtrack_next, lemma_next};
use crate::sugar::{apply_all, spec_precedence};
use crate::token::TokenEnum;

verus! {

/// `l op r`: the operator applied to its two operands.
pub open spec fn binary(op: Seq<char>, l: ExprV, r: ExprV) -> ExprV {
    ExprV::Apply(
        Box::new(ExprV::Apply(Box::new(ExprV::Identifier(op)), Box::new(l))),
        Box::new(r),
    )
}

/// In whatever position the next token is requested of `m`, it is a token of
/// kind `kind` with the text `lexeme`, and the lexer is then in state `n`.
pub open spec fn reads(m: LexerView, n: LexerView, kind: TokenEnum, lexeme: Seq<char>) -> bool {
    &&& forall|ctx: ParseContext| #[trigger] m.next(ctx) == Some(n)
    &&& n.current().kind == kind
    &&& n.current().lexeme == lexeme
}

/// A token of kind `kind` neither starts an operand nor is an operator.
pub open spec fn ends_expression(kind: TokenEnum) -> bool {
    kind != TokenEnum::LPARENS && kind != TokenEnum::LBRACKET && kind != TokenEnum::LET && kind
        != TokenEnum::CASE && kind != TokenEnum::NAME && kind != TokenEnum::NUMBER && kind
        != TokenEnum::OPERATOR
}

pub proof fn lemma_binary(op: Seq<char>, l: ExprV, r: ExprV)
    ensures
        combine(Some(l), op, Some(r)) == Some(binary(op, l, r)),
{
    reveal_with_fuel(apply_all, 3);
    let args = seq![l, r];
    assert(args.drop_first() =~= seq![r]);
    assert(args.drop_first().drop_first() =~= Seq::<ExprV>::empty());
}

/// A name in front of a token that starts no operand is an application of
/// its own, and that token stays unread.
proof fn lemma_lone_name(m: LexerView, n: LexerView, after: LexerView, name: Seq<char>)
    requires
        m.wf(),
        reads(m, n, TokenEnum::NAME, name),
        forall|ctx: ParseContext| #[trigger] n.next(ctx) == Some(after),
        ends_expression(after.current().kind) || after.current().kind == TokenEnum::OPERATOR,
    ensures
        application(m) == Ok::<(Option<ExprV>, LexerView), ParseError>(
            (Some(ExprV::Identifier(name)), after.backtrack()),
        ),
        n.wf(),
        after.wf(),
        after.valid(),
        after.backtrack().wf(),
        follows(after.backtrack(), m),
        after.backtrack().potential() < m.potential(),
        after.potential() < m.potential(),
        after.backtrack().next(ParseContext::Anything) == Some(after),
{
    lemma_next(m, ParseContext::Anything);
    assert(m.next(ParseContext::Anything) == Some(n));
    lemma_next(n, ParseContext::Application);
    assert(n.next(ParseContext::Application) == Some(after));
    lemma_backtrack(after);
    lemma_backtrack_next(after, ParseContext::Anything);
    assert(sub_expression(m, ParseContext::Anything) == Ok::<(Option<ExprV>, LexerView), ParseError>(
        (Some(ExprV::Identifier(name)), n),
    ));
    assert(sub_expression(n, ParseContext::Application) == Ok::<
        (Option<ExprV>, LexerView),
        ParseError,
    >((None, after.backtrack())));
    assert(application_arguments(n, Seq::empty()) == Ok::<(Seq<ExprV>, LexerView), ParseError>(
        (Seq::empty(), after.backtrack()),
    ));
    assert(apply_all(ExprV::Identifier(name), Seq::empty()) == ExprV::Identifier(name));
}

/// An operator applies to what an operator of higher precedence makes of the
/// operands to its right: where `op1` binds less strongly than `op2`, the
/// tokens `a op1 b op2 c` in front of a token that ends the expression are
/// the expression `a op1 (b op2 c)`, and that token stays unread.
pub proof fn lemma_precedence(
    m0: LexerView,
    m1: LexerView,
    m2: LexerView,
    m3: LexerView,
    m4: LexerView,
    m5: LexerView,
    m6: LexerView,
    a: Seq<char>,
    op1: Seq<char>,
    b: Seq<char>,
    op2: Seq<char>,
    c: Seq<char>,
)
    requires
        m0.wf(),
        reads(m0, m1, TokenEnum::NAME, a),
        reads(m1, m2, TokenEnum::OPERATOR, op1),
        reads(m2, m3, TokenEnum::NAME, b),
        reads(m3, m4, TokenEnum::OPERATOR, op2),
        reads(m4, m5, TokenEnum::NAME, c),
        forall|ctx: ParseContext| #[trigger] m5.next(ctx) == Some(m6),
        ends_expression(m6.current().kind),
        spec_precedence(op1) < spec_precedence(op2),
    ensures
        expression(m0) == Ok::<(Option<ExprV>, LexerView), ParseError>(
            (
                Some(
                    binary(
                        op1,
                        ExprV::Identifier(a),
                        binary(op2, ExprV::Identifier(b), ExprV::Identifier(c)),
                    ),
                ),
                m6.backtrack(),
            ),
        ),
{
    let ea = ExprV::Identifier(a);
    let eb = ExprV::Identifier(b);
    let ec = ExprV::Identifier(c);
    let inner = binary(op2, eb, ec);
    let outer = binary(op1, ea, inner);
    let p1 = spec_precedence(op1);
    let p2 = spec_precedence(op2);
    let any = ParseContext::Anything;
    lemma_lone_name(m0, m1, m2, a);
    lemma_lone_name(m2, m3, m4, b);
    lemma_lone_name(m4, m5, m6, c);
    lemma_binary(op2, eb, ec);
    lemma_binary(op1, ea, inner);
    let b2 = m2.backtrack();
    let b4 = m4.backtrack();
    let b6 = m6.backtrack();
    let done = Ok::<(Option<ExprV>, LexerView), ParseError>((Some(outer), b6));
    // behind `c`
    assert(!at_operator(m6));
    assert(operator_rhs(m6, Some(ec), p2) == Ok::<(Option<ExprV>, LexerView), ParseError>(
        (Some(ec), m6),
    ));
    assert(precedes(m6, m4));
    assert(operator_loop(m6, Some(inner), p2) == Ok::<(Option<ExprV>, LexerView), ParseError>(
        (Some(inner), b6),
    ));
    assert(operator_tail(operator_rhs(m6, Some(ec), p2), m4, Some(eb), p2) == Ok::<
        (Option<ExprV>, LexerView),
        ParseError,
    >((Some(inner), b6)));
    // `op2` and its operands
    assert(at_operator(m4));
    assert(token(b6, any) == Ok::<LexerView, ParseError>(m6));
    assert(checked(application(m4), m4) == application(m4));
    assert(operator_loop(m4, Some(eb), p2) == Ok::<(Option<ExprV>, LexerView), ParseError>(
        (Some(inner), b6),
    ));
    assert(follows(b6, m4));
    assert(operator_rhs(m6, Some(inner), p1) == Ok::<(Option<ExprV>, LexerView), ParseError>(
        (Some(inner), m6),
    ));
    assert(operator_rhs(m4, Some(eb), p1) == Ok::<(Option<ExprV>, LexerView), ParseError>(
        (Some(inner), m6),
    ));
    // `op1` and its operands
    assert(at_operator(m2));
    assert(precedes(m6, m2));
    assert(operator_loop(m6, Some(outer), 0) == done);
    assert(operator_tail(operator_rhs(m4, Some(eb), p1), m2, Some(ea), 0) == done);
    assert(token(b4, any) == Ok::<LexerView, ParseError>(m4));
    assert(checked(application(m2), m2) == application(m2));
    assert(operator_loop(m2, Some(ea), 0) == done);
    assert(token(b2, any) == Ok::<LexerView, ParseError>(m2));
    assert(operator_expression(b2, Some(ea), 0) == done);
    assert(checked(application(m0), m0) == application(m0));
}

} // verus!
