//! The parser: recursive descent over the tokens of the layout engine. This
//! file holds the parser itself and the part for expressions and bindings.

use vstd::prelude::*;
use crate::ast::{
    Alternative, Expr, ExprV, Typed, alternatives_view, case_, exprs_view, let_, let_bindings_view,
};
use crate::context::ParseContext;
use crate::decl::{Binding, BindingV, TypeDeclaration, bindings_view, let_pairs};
use crate::error::ParseError;
use crate::grammar::{
    Parsed, alternative, alternatives_sep, application, application_arguments, at_operator,
    binding, binding_arguments, bindings_sep, case_expression, declared_name, expression,
    expression_, expressions_sep, follows, let_expression, list, list_rest, operator_expression,
    operator_loop, operator_rhs, operator_tail, list_of_items, parenthesized, require,
    sub_expression, token,
};
use crate::layout::{LexerView, cost, lemma_backtrack, lemma_backtrack_next, lemma_next};
use crate::lexer::Lexer;
use crate::sugar::{
    make_application, make_lambda, make_list, names_view, new_tuple, parse_number, precedence,
    spec_precedence,
};
use crate::token::{Token, TokenEnum};

verus! {

pub struct Parser {
    pub lexer: Lexer,
}

impl View for Parser {
    type V = LexerView;

    open spec fn view(&self) -> LexerView {
        self.lexer@
    }
}

/// What an optional expression is in specifications.
pub open spec fn option_view(e: Option<Typed<Expr>>) -> Option<ExprV> {
    match e {
        Some(e) => Some(e@),
        None => None,
    }
}

/// `r` and the state `after` are what `spec` says, and `after` follows
/// `before`.
pub open spec fn yields_option(
    r: Result<Option<Typed<Expr>>, ParseError>,
    after: LexerView,
    spec: Parsed<Option<ExprV>>,
    before: LexerView,
) -> bool {
    match spec {
        Ok((v, m)) => r.is_ok() && option_view(r.unwrap()) == v && after == m && follows(m, before),
        Err(e) => r == Err::<Option<Typed<Expr>>, ParseError>(e),
    }
}

pub open spec fn yields_expr(
    r: Result<Typed<Expr>, ParseError>,
    after: LexerView,
    spec: Parsed<ExprV>,
    before: LexerView,
) -> bool {
    match spec {
        Ok((v, m)) => r.is_ok() && r.unwrap()@ == v && after == m && follows(m, before),
        Err(e) => r == Err::<Typed<Expr>, ParseError>(e),
    }
}

pub open spec fn yields_exprs(
    r: Result<Vec<Typed<Expr>>, ParseError>,
    after: LexerView,
    spec: Parsed<Seq<ExprV>>,
    before: LexerView,
) -> bool {
    match spec {
        Ok((v, m)) => r.is_ok() && exprs_view(r.unwrap()@) == v && after == m && follows(m, before),
        Err(e) => r == Err::<Vec<Typed<Expr>>, ParseError>(e),
    }
}

pub open spec fn yields_binding(
    r: Result<Binding, ParseError>,
    after: LexerView,
    spec: Parsed<BindingV>,
    before: LexerView,
) -> bool {
    match spec {
        Ok((v, m)) => r.is_ok() && r.unwrap()@ == v && after == m && follows(m, before),
        Err(e) => r == Err::<Binding, ParseError>(e),
    }
}

pub open spec fn yields_bindings(
    r: Result<Vec<Binding>, ParseError>,
    after: LexerView,
    spec: Parsed<Seq<BindingV>>,
    before: LexerView,
) -> bool {
    match spec {
        Ok((v, m)) => r.is_ok() && bindings_view(r.unwrap()@) == v && after == m && follows(
            m,
            before,
        ),
        Err(e) => r == Err::<Vec<Binding>, ParseError>(e),
    }
}

pub open spec fn yields_name(
    r: Result<String, ParseError>,
    after: LexerView,
    spec: Parsed<Seq<char>>,
    before: LexerView,
) -> bool {
    match spec {
        Ok((v, m)) => r.is_ok() && r.unwrap()@ == v && after == m && follows(m, before),
        Err(e) => r == Err::<String, ParseError>(e),
    }
}

pub open spec fn yields_names(
    r: Result<Vec<String>, ParseError>,
    after: LexerView,
    spec: Parsed<Seq<Seq<char>>>,
    before: LexerView,
) -> bool {
    match spec {
        Ok((v, m)) => r.is_ok() && names_view(r.unwrap()@) == v && after == m && follows(m, before),
        Err(e) => r == Err::<Vec<String>, ParseError>(e),
    }
}

impl Parser {
    /// The lexer is well formed, and so is its state.
    pub open spec fn wf(&self) -> bool {
        self.lexer.wf() && self@.wf()
    }

    /// A parser at the start of `input`.
    pub fn new(input: Vec<char>) -> (r: Parser)
        ensures
            r.wf(),
            r@ == LexerView::initial(input@),
    {
        let r = Parser { lexer: Lexer::new(input) };
        proof {
            r.lexer.lemma_view_wf();
        }
        r
    }

    /// Requests one token in the position `ctx` and returns its kind.
    pub fn step(&mut self, ctx: ParseContext) -> (r: Result<TokenEnum, ParseError>)
        requires
            old(self).wf(),
        ensures
            final(self).wf(),
            match token(old(self)@, ctx) {
                Ok(n) => {
                    &&& r == Ok::<TokenEnum, ParseError>(n.current().kind)
                    &&& final(self)@ == n
                    &&& n.valid()
                    &&& follows(n, old(self)@)
                    &&& n.potential() + cost(n.current().kind) <= old(self)@.potential()
                    &&& n.cursor() == old(self)@.cursor() + 1
                    &&& n.offset <= 1 || n.offset < old(self)@.offset
                },
                Err(e) => r == Err::<TokenEnum, ParseError>(e),
            },
    {
        proof {
            lemma_next(self@, ctx);
        }
        let r = match self.lexer.next(ctx) {
            Ok(t) => Ok(t.token),
            Err(_) => Err(ParseError::UnmatchedBrace),
        };
        proof {
            self.lexer.lemma_view_wf();
        }
        r
    }

    /// Steps back over the current token.
    pub fn back(&mut self)
        requires
            old(self).wf(),
            old(self)@.valid(),
        ensures
            final(self).wf(),
            final(self)@ == old(self)@.backtrack(),
            final(self)@.potential() == old(self)@.potential() + cost(old(self)@.current().kind),
            final(self)@.input == old(self)@.input,
    {
        proof {
            lemma_backtrack(self@);
        }
        self.lexer.backtrack();
    }

    /// The kind of the current token.
    pub fn kind(&self) -> (r: TokenEnum)
        requires
            self.wf(),
            self@.valid(),
        ensures
            r == self@.current().kind,
    {
        self.lexer.current().token
    }

    /// The text of the current token.
    pub fn lexeme(&self) -> (r: String)
        requires
            self.wf(),
            self@.valid(),
        ensures
            r@ == self@.current().lexeme,
    {
        self.lexer.current().value.clone()
    }

    /// The precedence of the operator on which the reader stands, if it
    /// stands on one.
    fn operator_here(&self) -> (r: Option<isize>)
        requires
            self.wf(),
        ensures
            r == if at_operator(self@) {
                Some(spec_precedence(self@.current().lexeme) as isize)
            } else {
                None
            },
    {
        if self.lexer.valid() && self.lexer.current().token == TokenEnum::OPERATOR {
            Some(precedence(self.lexer.current().value.as_str()))
        } else {
            None
        }
    }

    /// The next token, which has to be of kind `expected`.
    pub fn require_next(&mut self, expected: TokenEnum) -> (r: Result<&Token, ParseError>)
        requires
            old(self).wf(),
        ensures
            final(self).wf(),
            match require(old(self)@, expected) {
                Ok(n) => {
                    &&& r.is_ok()
                    &&& r.unwrap()@ == n.current()
                    &&& final(self)@ == n
                    &&& n.valid()
                    &&& follows(n, old(self)@)
                    &&& n.potential() + cost(expected) <= old(self)@.potential()
                },
                Err(e) => r.is_err() && r.unwrap_err() == e,
            },
    {
        match self.step(ParseContext::Anything) {
            Ok(tok) => {
                if tok != expected {
                    return Err(ParseError::Expected(expected));
                }
            },
            Err(e) => {
                return Err(e);
            },
        }
        Ok(self.lexer.current())
    }

    pub fn sub_expression(&mut self, ctx: ParseContext) -> (r: Result<Option<Typed<Expr>>, ParseError>)
        requires
            old(self).wf(),
        ensures
            final(self).wf(),
            yields_option(r, final(self)@, sub_expression(old(self)@, ctx), old(self)@),
            r.is_ok() && r.unwrap().is_some() ==> final(self)@.potential() < old(self)@.potential(),
        decreases old(self)@.potential(), 0nat, 0nat,
    {
        let kind = match self.step(ctx) {
            Ok(kind) => kind,
            Err(e) => {
                return Err(e);
            },
        };
        match kind {
            TokenEnum::LPARENS => self.parenthesized(),
            TokenEnum::LBRACKET => self.parse_list(),
            TokenEnum::LET => self.let_expression(),
            TokenEnum::CASE => self.case_expression(),
            TokenEnum::NAME => {
                let token = self.lexer.current();
                Ok(Some(Typed::with_location(Expr::Identifier(token.value.clone()), token.location)))
            },
            TokenEnum::NUMBER => {
                let token = self.lexer.current();
                match parse_number(token.value.as_str()) {
                    Some(v) => Ok(Some(Typed::with_location(Expr::Number(v), token.location))),
                    None => Err(ParseError::NumberTooLarge),
                }
            },
            _ => {
                self.back();
                Ok(None)
            },
        }
    }

    /// Behind `(`.
    fn parenthesized(&mut self) -> (r: Result<Option<Typed<Expr>>, ParseError>)
        requires
            old(self).wf(),
        ensures
            final(self).wf(),
            yields_option(r, final(self)@, parenthesized(old(self)@), old(self)@),
        decreases old(self)@.potential(), 0nat, 9nat,
    {
        let mut expressions = match self.expressions_sep() {
            Ok(expressions) => expressions,
            Err(e) => {
                return Err(e);
            },
        };
        if self.kind() != TokenEnum::RPARENS {
            return Err(ParseError::Expected(TokenEnum::RPARENS));
        }
        if expressions.len() == 1 {
            let ghost items = exprs_view(expressions@);
            let only = expressions.pop().unwrap();
            assert(only@ == items[0]);
            Ok(Some(only))
        } else {
            Ok(Some(new_tuple(expressions)))
        }
    }

    /// Expressions between commas, at least one.
    fn expressions_sep(&mut self) -> (r: Result<Vec<Typed<Expr>>, ParseError>)
        requires
            old(self).wf(),
        ensures
            final(self).wf(),
            yields_exprs(r, final(self)@, expressions_sep(old(self)@, Seq::empty()), old(self)@),
            r.is_ok() ==> final(self)@.valid() && r.unwrap()@.len() >= 1,
        decreases old(self)@.potential(), 0nat, 8nat,
    {
        let mut result: Vec<Typed<Expr>> = Vec::new();
        assert(exprs_view(result@) =~= Seq::empty());
        loop
            invariant
                self.wf(),
                old(self).wf(),
                follows(self@, old(self)@),
                expressions_sep(old(self)@, Seq::empty()) == expressions_sep(
                    self@,
                    exprs_view(result@),
                ),
            decreases self@.potential(),
        {
            let ghost acc = exprs_view(result@);
            let e = match self.expression_() {
                Ok(e) => e,
                Err(e) => {
                    return Err(e);
                },
            };
            result.push(e);
            assert(exprs_view(result@) =~= acc.push(e@));
            let kind = match self.step(ParseContext::Anything) {
                Ok(kind) => kind,
                Err(e) => {
                    return Err(e);
                },
            };
            if kind != TokenEnum::COMMA {
                return Ok(result);
            }
        }
    }

    /// Behind `[`.
    pub fn parse_list(&mut self) -> (r: Result<Option<Typed<Expr>>, ParseError>)
        requires
            old(self).wf(),
        ensures
            final(self).wf(),
            yields_option(r, final(self)@, list(old(self)@), old(self)@),
        decreases old(self)@.potential(), 0nat, 9nat,
    {
        let mut expressions: Vec<Typed<Expr>> = Vec::new();
        match self.expression() {
            Ok(Some(e)) => {
                expressions.push(e);
                assert(exprs_view(expressions@) =~= seq![e@]);
            },
            Ok(None) => {
                match self.require_next(TokenEnum::RBRACKET) {
                    Ok(_) => {},
                    Err(e) => {
                        return Err(e);
                    },
                }
                assert(exprs_view(expressions@) =~= Seq::empty());
                return Ok(Some(make_list(expressions)));
            },
            Err(e) => {
                return Err(e);
            },
        }
        loop
            invariant
                self.wf(),
                old(self).wf(),
                follows(self@, old(self)@),
                list(old(self)@) == list_of_items(list_rest(self@, exprs_view(expressions@))),
            decreases self@.potential(),
        {
            let ghost acc = exprs_view(expressions@);
            let kind = match self.step(ParseContext::Anything) {
                Ok(kind) => kind,
                Err(e) => {
                    return Err(e);
                },
            };
            if kind == TokenEnum::COMMA {
                match self.expression() {
                    Ok(Some(e)) => {
                        expressions.push(e);
                        assert(exprs_view(expressions@) =~= acc.push(e@));
                    },
                    Ok(None) => {
                        return Err(ParseError::Expected(TokenEnum::RBRACKET));
                    },
                    Err(e) => {
                        return Err(e);
                    },
                }
            } else if kind == TokenEnum::RBRACKET {
                return Ok(Some(make_list(expressions)));
            } else {
                return Err(ParseError::Expected(TokenEnum::RBRACKET));
            }
        }
    }

    /// Behind `let`.
    fn let_expression(&mut self) -> (r: Result<Option<Typed<Expr>>, ParseError>)
        requires
            old(self).wf(),
        ensures
            final(self).wf(),
            yields_option(r, final(self)@, let_expression(old(self)@), old(self)@),
        decreases old(self)@.potential(), 0nat, 10nat,
    {
        match self.require_next(TokenEnum::LBRACE) {
            Ok(_) => {},
            Err(e) => {
                return Err(e);
            },
        }
        let mut binds = match self.bindings_sep() {
            Ok(binds) => binds,
            Err(e) => {
                return Err(e);
            },
        };
        if self.kind() != TokenEnum::RBRACE {
            return Err(ParseError::Expected(TokenEnum::RBRACE));
        }
        match self.step(ParseContext::LetExpressionEnd) {
            Ok(kind) => {
                if kind != TokenEnum::IN {
                    return Err(ParseError::Expected(TokenEnum::IN));
                }
            },
            Err(e) => {
                return Err(e);
            },
        }
        match self.expression() {
            Ok(Some(e)) => {
                let ghost pairs = let_pairs(bindings_view(binds@));
                let mut x: Vec<(String, Typed<Expr>)> = Vec::new();
                while binds.len() > 0
                    invariant
                        x@.len() + binds@.len() == pairs.len(),
                        forall|i: int|
                            0 <= i < x@.len() ==> (#[trigger] x@[i]).0@ == pairs[i].0 && x@[i].1@
                                == pairs[i].1,
                        forall|i: int|
                            0 <= i < binds@.len() ==> (#[trigger] binds@[i])@.name == pairs[x@.len()
                                + i].0 && binds@[i]@.expression == pairs[x@.len() + i].1,
                    decreases binds.len(),
                {
                    let ghost before = binds@;
                    let b = binds.remove(0);
                    assert forall|i: int| 0 <= i < binds@.len() implies (#[trigger] binds@[i])@.name
                        == pairs[x@.len() + 1 + i].0 && binds@[i]@.expression == pairs[x@.len() + 1
                        + i].1 by {
                        assert(binds@[i] == before[i + 1]);
                    }
                    x.push((b.name, b.expression));
                }
                assert(let_bindings_view(x@) =~= pairs);
                Ok(Some(let_(x, e)))
            },
            Ok(None) => Ok(None),
            Err(e) => Err(e),
        }
    }

    /// Behind `case`.
    fn case_expression(&mut self) -> (r: Result<Option<Typed<Expr>>, ParseError>)
        requires
            old(self).wf(),
        ensures
            final(self).wf(),
            yields_option(r, final(self)@, case_expression(old(self)@), old(self)@),
        decreases old(self)@.potential(), 0nat, 10nat,
    {
        let expr = match self.expression_() {
            Ok(expr) => expr,
            Err(e) => {
                return Err(e);
            },
        };
        match self.require_next(TokenEnum::OF) {
            Ok(_) => {},
            Err(e) => {
                return Err(e);
            },
        }
        match self.require_next(TokenEnum::LBRACE) {
            Ok(_) => {},
            Err(e) => {
                return Err(e);
            },
        }
        let alts = match self.alternatives_sep() {
            Ok(alts) => alts,
            Err(e) => {
                return Err(e);
            },
        };
        if self.kind() != TokenEnum::RBRACE {
            return Err(ParseError::Expected(TokenEnum::RBRACE));
        }
        Ok(Some(case_(expr, alts)))
    }

    /// `pattern -> expression`.
    pub fn alternative(&mut self) -> (r: Result<Alternative, ParseError>)
        requires
            old(self).wf(),
        ensures
            final(self).wf(),
            match alternative(old(self)@) {
                Ok(((p, e), m)) => r.is_ok() && r.unwrap().pattern@ == p && r.unwrap().expression@
                    == e && final(self)@ == m && follows(m, old(self)@),
                Err(e) => r.is_err() && r.unwrap_err() == e,
            },
        decreases old(self)@.potential(), 0nat, 8nat,
    {
        let pat = match self.pattern() {
            Ok(pat) => pat,
            Err(e) => {
                return Err(e);
            },
        };
        match self.require_next(TokenEnum::ARROW) {
            Ok(_) => {},
            Err(e) => {
                return Err(e);
            },
        }
        match self.expression_() {
            Ok(expression) => Ok(Alternative { pattern: pat, expression }),
            Err(e) => Err(e),
        }
    }

    /// Alternatives between semicolons, at least one.
    fn alternatives_sep(&mut self) -> (r: Result<Vec<Alternative>, ParseError>)
        requires
            old(self).wf(),
        ensures
            final(self).wf(),
            match alternatives_sep(old(self)@, Seq::empty()) {
                Ok((v, m)) => r.is_ok() && alternatives_view(r.unwrap()@) == v && final(self)@ == m
                    && follows(m, old(self)@) && m.valid(),
                Err(e) => r.is_err() && r.unwrap_err() == e,
            },
        decreases old(self)@.potential(), 0nat, 9nat,
    {
        let mut result: Vec<Alternative> = Vec::new();
        assert(alternatives_view(result@) =~= Seq::empty());
        loop
            invariant
                self.wf(),
                old(self).wf(),
                follows(self@, old(self)@),
                alternatives_sep(old(self)@, Seq::empty()) == alternatives_sep(
                    self@,
                    alternatives_view(result@),
                ),
            decreases self@.potential(),
        {
            let ghost acc = alternatives_view(result@);
            let a = match self.alternative() {
                Ok(a) => a,
                Err(e) => {
                    return Err(e);
                },
            };
            result.push(a);
            assert(alternatives_view(result@) =~= acc.push((a.pattern@, a.expression@)));
            let kind = match self.step(ParseContext::Anything) {
                Ok(kind) => kind,
                Err(e) => {
                    return Err(e);
                },
            };
            if kind != TokenEnum::SEMICOLON {
                return Ok(result);
            }
        }
    }

    /// Bindings between semicolons, at least one.
    pub fn bindings_sep(&mut self) -> (r: Result<Vec<Binding>, ParseError>)
        requires
            old(self).wf(),
        ensures
            final(self).wf(),
            yields_bindings(r, final(self)@, bindings_sep(old(self)@, Seq::empty()), old(self)@),
            r.is_ok() ==> final(self)@.valid() && r.unwrap()@.len() >= 1,
        decreases old(self)@.potential(), 0nat, 9nat,
    {
        let mut result: Vec<Binding> = Vec::new();
        assert(bindings_view(result@) =~= Seq::empty());
        loop
            invariant
                self.wf(),
                old(self).wf(),
                follows(self@, old(self)@),
                bindings_sep(old(self)@, Seq::empty()) == bindings_sep(
                    self@,
                    bindings_view(result@),
                ),
            decreases self@.potential(),
        {
            let ghost acc = bindings_view(result@);
            let b = match self.binding() {
                Ok(b) => b,
                Err(e) => {
                    return Err(e);
                },
            };
            result.push(b);
            assert(bindings_view(result@) =~= acc.push(b@));
            let kind = match self.step(ParseContext::Anything) {
                Ok(kind) => kind,
                Err(e) => {
                    return Err(e);
                },
            };
            if kind != TokenEnum::SEMICOLON {
                return Ok(result);
            }
        }
    }

    /// The name that a binding or a type declaration declares.
    pub fn declared_name(&mut self) -> (r: Result<String, ParseError>)
        requires
            old(self).wf(),
        ensures
            final(self).wf(),
            yields_name(r, final(self)@, declared_name(old(self)@), old(self)@),
            r.is_ok() ==> final(self)@.valid() && final(self)@.potential() < old(self)@.potential(),
    {
        let name_token = match self.step(ParseContext::NameOrLParens) {
            Ok(kind) => kind,
            Err(e) => {
                return Err(e);
            },
        };
        if name_token == TokenEnum::LPARENS {
            let function_name = match self.step(ParseContext::NameOrOperator) {
                Ok(kind) => kind,
                Err(e) => {
                    return Err(e);
                },
            };
            if function_name != TokenEnum::NAME && function_name != TokenEnum::OPERATOR {
                return Err(ParseError::ExpectedNameOrOperator(function_name));
            }
            let name = self.lexeme();
            match self.step(ParseContext::RParens) {
                Ok(kind) => {
                    if kind != TokenEnum::RPARENS {
                        return Err(ParseError::Expected(TokenEnum::RPARENS));
                    }
                },
                Err(e) => {
                    return Err(e);
                },
            }
            Ok(name)
        } else if name_token == TokenEnum::NAME {
            Ok(self.lexeme())
        } else {
            Err(ParseError::Expected(TokenEnum::NAME))
        }
    }

    /// The parameters of a binding.
    fn binding_arguments(&mut self) -> (r: Result<Vec<String>, ParseError>)
        requires
            old(self).wf(),
        ensures
            final(self).wf(),
            yields_names(r, final(self)@, binding_arguments(old(self)@, Seq::empty()), old(self)@),
            r.is_ok() ==> final(self)@.valid(),
    {
        let mut arguments: Vec<String> = Vec::new();
        assert(names_view(arguments@) =~= Seq::empty());
        loop
            invariant
                self.wf(),
                old(self).wf(),
                follows(self@, old(self)@),
                binding_arguments(old(self)@, Seq::empty()) == binding_arguments(
                    self@,
                    names_view(arguments@),
                ),
            decreases self@.potential(),
        {
            let ghost acc = names_view(arguments@);
            let kind = match self.step(ParseContext::NameOrEqual) {
                Ok(kind) => kind,
                Err(e) => {
                    return Err(e);
                },
            };
            if kind == TokenEnum::NAME {
                let name = self.lexeme();
                arguments.push(name);
                assert(names_view(arguments@) =~= acc.push(name@));
            } else {
                return Ok(arguments);
            }
        }
    }

    /// `name = expr` or `name x y = expr`.
    pub fn binding(&mut self) -> (r: Result<Binding, ParseError>)
        requires
            old(self).wf(),
        ensures
            final(self).wf(),
            yields_binding(r, final(self)@, binding(old(self)@), old(self)@),
        decreases old(self)@.potential(), 0nat, 8nat,
    {
        let name = match self.declared_name() {
            Ok(name) => name,
            Err(e) => {
                return Err(e);
            },
        };
        let arguments = match self.binding_arguments() {
            Ok(arguments) => arguments,
            Err(e) => {
                return Err(e);
            },
        };
        if self.kind() != TokenEnum::EQUALSSIGN {
            return Err(ParseError::Expected(TokenEnum::EQUALSSIGN));
        }
        let body = match self.expression_() {
            Ok(body) => body,
            Err(e) => {
                return Err(e);
            },
        };
        let expression = if arguments.len() > 0 {
            make_lambda(arguments, body)
        } else {
            body
        };
        Ok(Binding { name, type_decl: TypeDeclaration::undeclared(), expression })
    }

    /// An expression that has to be there.
    pub fn expression_(&mut self) -> (r: Result<Typed<Expr>, ParseError>)
        requires
            old(self).wf(),
        ensures
            final(self).wf(),
            yields_expr(r, final(self)@, expression_(old(self)@), old(self)@),
        decreases old(self)@.potential(), 0nat, 7nat,
    {
        match self.expression() {
            Ok(Some(expr)) => Ok(expr),
            Ok(None) => Err(ParseError::ExpectedExpression),
            Err(e) => Err(e),
        }
    }

    pub fn expression(&mut self) -> (r: Result<Option<Typed<Expr>>, ParseError>)
        requires
            old(self).wf(),
        ensures
            final(self).wf(),
            yields_option(r, final(self)@, expression(old(self)@), old(self)@),
        decreases old(self)@.potential(), 0nat, 6nat,
    {
        let app = match self.application() {
            Ok(app) => app,
            Err(e) => {
                return Err(e);
            },
        };
        self.parse_operator_expression(app, 0)
    }

    pub fn application(&mut self) -> (r: Result<Option<Typed<Expr>>, ParseError>)
        requires
            old(self).wf(),
        ensures
            final(self).wf(),
            yields_option(r, final(self)@, application(old(self)@), old(self)@),
        decreases old(self)@.potential(), 0nat, 2nat,
    {
        let lhs = match self.sub_expression(ParseContext::Anything) {
            Ok(Some(lhs)) => lhs,
            Ok(None) => {
                return Ok(None);
            },
            Err(e) => {
                return Err(e);
            },
        };
        let ghost first = self@;
        let mut expressions: Vec<Typed<Expr>> = Vec::new();
        assert(exprs_view(expressions@) =~= Seq::empty());
        loop
            invariant_except_break
                follows(self@, first),
                application_arguments(first, Seq::empty()) == application_arguments(
                    self@,
                    exprs_view(expressions@),
                ),
            invariant
                self.wf(),
                old(self).wf(),
                first.wf(),
                follows(first, old(self)@),
                application(old(self)@) == match application_arguments(first, Seq::empty()) {
                    Err(e) => Err(e),
                    Ok((args, m2)) => Ok((Some(crate::sugar::apply_all(lhs@, args)), m2)),
                },
            ensures
                self.wf(),
                follows(self@, old(self)@),
                application_arguments(first, Seq::empty()) == Ok::<
                    (Seq<ExprV>, LexerView),
                    ParseError,
                >((exprs_view(expressions@), self@)),
            decreases self@.potential(),
        {
            let ghost acc = exprs_view(expressions@);
            match self.sub_expression(ParseContext::Application) {
                Ok(Some(e)) => {
                    expressions.push(e);
                    assert(exprs_view(expressions@) =~= acc.push(e@));
                },
                Ok(None) => {
                    break ;
                },
                Err(e) => {
                    return Err(e);
                },
            }
        }
        if expressions.len() > 0 {
            Ok(Some(make_application(lhs, expressions)))
        } else {
            Ok(Some(lhs))
        }
    }

    /// The operators behind `in_l` that bind at least as strongly as
    /// `min_precedence`, with their operands.
    pub fn parse_operator_expression(&mut self, in_l: Option<Typed<Expr>>, min_precedence: isize) -> (r: Result<Option<Typed<Expr>>, ParseError>)
        requires
            old(self).wf(),
        ensures
            final(self).wf(),
            yields_option(
                r,
                final(self)@,
                operator_expression(old(self)@, option_view(in_l), min_precedence as int),
                old(self)@,
            ),
            r.is_ok() ==> match token(old(self)@, ParseContext::Anything) {
                Ok(n) => at_operator(n) && spec_precedence(n.current().lexeme) >= min_precedence
                    ==> final(self)@.potential() < old(self)@.potential(),
                Err(_) => true,
            },
        decreases old(self)@.potential(), 0nat, 5nat,
    {
        let ghost entry = self@;
        let ghost whole = operator_expression(entry, option_view(in_l), min_precedence as int);
        let mut lhs = in_l;
        match self.step(ParseContext::Anything) {
            Ok(_) => {},
            Err(e) => {
                return Err(e);
            },
        }
        let ghost first = self@;
        let ghost mut iterated = false;
        loop
            invariant
                self.wf(),
                old(self).wf(),
                entry == old(self)@,
                token(entry, ParseContext::Anything) == Ok::<LexerView, ParseError>(first),
                whole == operator_expression(entry, option_view(in_l), min_precedence as int),
                self@.valid(),
                self@.input == entry.input,
                self@.potential() + cost(self@.current().kind) <= entry.potential(),
                iterated ==> self@.potential() + cost(self@.current().kind) < entry.potential(),
                !iterated ==> self@ == first,
                whole == operator_loop(self@, option_view(lhs), min_precedence as int),
            ensures
                self.wf(),
                self@.valid(),
                self@.input == entry.input,
                self@.potential() + cost(self@.current().kind) <= entry.potential(),
                iterated ==> self@.potential() + cost(self@.current().kind) < entry.potential(),
                !iterated ==> self@ == first && !(at_operator(first) && spec_precedence(
                    first.current().lexeme,
                ) >= min_precedence),
                whole == Ok::<(Option<ExprV>, LexerView), ParseError>(
                    (option_view(lhs), self@.backtrack()),
                ),
            decreases self@.potential(), crate::grammar::operator_flag(self@),
        {
            let op_precedence = match self.operator_here() {
                Some(p) => p,
                None => {
                    break ;
                },
            };
            if op_precedence < min_precedence {
                break ;
            }
            let ghost at_op = self@;
            let ghost lhs_view = option_view(lhs);
            let op = self.lexer.current().clone();
            let mut rhs = match self.application() {
                Ok(rhs) => rhs,
                Err(e) => {
                    return Err(e);
                },
            };
            let ghost after_application = self@;
            let ghost rhs_first = option_view(rhs);
            match self.step(ParseContext::Anything) {
                Ok(_) => {},
                Err(e) => {
                    return Err(e);
                },
            }
            let ghost lookahead = self@;
            loop
                invariant
                    self.wf(),
                    old(self).wf(),
                    entry == old(self)@,
                    self@.valid(),
                    at_op.wf(),
                    lookahead.wf(),
                    self@.input == entry.input,
                    self@.potential() + cost(self@.current().kind) <= after_application.potential(),
                    after_application.potential() <= at_op.potential(),
                    at_op.potential() + 1 <= entry.potential(),
                    whole == operator_expression(entry, option_view(in_l), min_precedence as int),
                    whole == operator_tail(
                        operator_rhs(self@, option_view(rhs), op_precedence as int),
                        at_op,
                        lhs_view,
                        min_precedence as int,
                    ),
                    operator_rhs(lookahead, rhs_first, op_precedence as int) == operator_rhs(
                        self@,
                        option_view(rhs),
                        op_precedence as int,
                    ),
                ensures
                    self.wf(),
                    self@.valid(),
                    self@.input == entry.input,
                    self@.potential() + cost(self@.current().kind) <= after_application.potential(),
                    operator_rhs(lookahead, rhs_first, op_precedence as int) == Ok::<
                        (Option<ExprV>, LexerView),
                        ParseError,
                    >((option_view(rhs), self@)),
                decreases self@.potential(), crate::grammar::operator_flag(self@),
            {
                let lookahead_precedence = match self.operator_here() {
                    Some(p) => p,
                    None => {
                        break ;
                    },
                };
                if lookahead_precedence <= op_precedence {
                    break ;
                }
                let ghost here = self@;
                let ghost rhs_here = option_view(rhs);
                self.back();
                proof {
                    lemma_backtrack_next(here, ParseContext::Anything);
                    assert(token(self@, ParseContext::Anything) == Ok::<LexerView, ParseError>(here));
                    assert(operator_expression(self@, rhs_here, lookahead_precedence as int)
                        == operator_loop(here, rhs_here, lookahead_precedence as int));
                }
                rhs =
                match self.parse_operator_expression(rhs, lookahead_precedence) {
                    Ok(rhs) => rhs,
                    Err(e) => {
                        return Err(e);
                    },
                };
                match self.step(ParseContext::Anything) {
                    Ok(_) => {},
                    Err(e) => {
                        return Err(e);
                    },
                }
            }
            let name = Typed::with_location(Expr::Identifier(op.value.clone()), op.location);
            let loc = match &lhs {
                Some(l) => l.location,
                None => op.location,
            };
            lhs =
            match (lhs, rhs) {
                (Some(l), Some(r)) => {
                    let mut args: Vec<Typed<Expr>> = Vec::new();
                    args.push(l);
                    args.push(r);
                    assert(exprs_view(args@) =~= seq![l@, r@]);
                    Some(make_application(name, args))
                },
                (Some(l), None) => {
                    let mut args: Vec<Typed<Expr>> = Vec::new();
                    args.push(l);
                    let hole = Typed::with_location(Expr::Identifier("#".to_owned()), loc);
                    args.push(hole);
                    assert(exprs_view(args@) =~= seq![l@, hole@]);
                    let mut apply = make_application(name, args);
                    apply.location = loc;
                    let mut params: Vec<String> = Vec::new();
                    params.push("#".to_owned());
                    Some(Self::section(params, apply))
                },
                (None, Some(r)) => {
                    if *op.value.as_str() == *"-" {
                        let negate = Typed::with_location(
                            Expr::Identifier("negate".to_owned()),
                            op.location,
                        );
                        let mut args: Vec<Typed<Expr>> = Vec::new();
                        args.push(r);
                        assert(exprs_view(args@) =~= seq![r@]);
                        Some(make_application(negate, args))
                    } else {
                        let mut args: Vec<Typed<Expr>> = Vec::new();
                        let hole = Typed::with_location(Expr::Identifier("#".to_owned()), loc);
                        args.push(hole);
                        args.push(r);
                        assert(exprs_view(args@) =~= seq![hole@, r@]);
                        let mut apply = make_application(name, args);
                        apply.location = loc;
                        let mut params: Vec<String> = Vec::new();
                        params.push("#".to_owned());
                        Some(Self::section(params, apply))
                    }
                },
                (None, None) => {
                    return Ok(None);
                },
            };
            proof {
                iterated = true;
            }
        }
        self.back();
        Ok(lhs)
    }

    /// The function of the one parameter of `params` with `body`.
    fn section(params: Vec<String>, body: Typed<Expr>) -> (r: Typed<Expr>)
        requires
            params@.len() == 1,
        ensures
            r@ == ExprV::Lambda(params@[0]@, Box::new(body@)),
    {
        let ghost names = names_view(params@);
        let r = make_lambda(params, body);
        proof {
            assert(names.drop_last() =~= Seq::empty());
            reveal_with_fuel(crate::sugar::lambda_all, 2);
        }
        r
    }
}

} // verus!
