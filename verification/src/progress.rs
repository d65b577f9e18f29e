//! Every parsing function leaves a state that follows the state it found.
//! The definitions of the grammar say so of their callees with `checked`
//! where they need it to recurse; the lemmas here prove it of each
//! definition, so `checked` changes no result.

use vstd::prelude::*;
use crate::context::ParseContext;
use crate::grammar::{
    Parsed, alternative, alternatives_sep, application, application_arguments, at_operator,
    binding, bindings_sep, case_expression, checked, expression, expression_, expressions_sep,
    follows, lemma_binding_arguments, lemma_declared_name, let_expression, list, list_rest,
    operator_expression, operator_loop, operator_rhs, operator_tail, operator_flag, parenthesized,
    precedes, require, sub_expression, token,
};
use crate::grammar_types::{
    parse_type, pattern, pattern_parameter, patterns_sep, return_type, type_arguments, type_atom,
    types_sep,
};
use crate::decl::{ConstructorV, ModuleV, TypeDeclarationV};
use crate::grammar_decl::{
    LOOKAHEAD_LIMIT, at_bar, at_context_arrow, class_, constructor, constructor_arguments,
    constructors_sep, data_definition, data_parameters, in_declaration_head, instance, lookahead,
    module, module_end, module_header, require_block, require_name, separator, top_level,
    type_declaration, type_declarations_sep,
};
use crate::layout::{
    LexerView, cost, lemma_backtrack, lemma_next, lemma_next_then_back, lemma_offset_bound,
    lemma_rewound_wf, rewound,
};
use crate::varmap::resolve;
use crate::ast::{ExprV, PatternV, TypeV};
use crate::sugar::spec_precedence;
use crate::token::TokenEnum;
use crate::varmap::VarMapV;

verus! {

/// Whether `r` failed or left a state that follows `before`.
pub open spec fn ok_follows<T>(r: Parsed<T>, before: LexerView) -> bool {
    match r {
        Ok((_, m)) => follows(m, before),
        Err(_) => true,
    }
}

/// Whether `r` failed or left a state with less work than `before` had.
pub open spec fn ok_advances<T>(r: Parsed<T>, before: LexerView) -> bool {
    match r {
        Ok((_, m)) => follows(m, before) && m.potential() < before.potential(),
        Err(_) => true,
    }
}

/// Whether `r` failed or left a state that follows `before` with the reader
/// on a token.
pub open spec fn ok_follows_on_token<T>(r: Parsed<T>, before: LexerView) -> bool {
    match r {
        Ok((_, m)) => follows(m, before) && m.valid(),
        Err(_) => true,
    }
}

/// A result that follows is what `checked` makes of it.
pub proof fn lemma_checked<T>(r: Parsed<T>, before: LexerView)
    requires
        ok_follows(r, before),
    ensures
        checked(r, before) == r,
{
}

pub proof fn lemma_require(m: LexerView, kind: TokenEnum)
    requires
        m.wf(),
    ensures
        match require(m, kind) {
            Ok(n) => follows(n, m) && n.valid() && n.potential() + cost(kind) <= m.potential(),
            Err(_) => true,
        },
{
    lemma_next(m, ParseContext::Anything);
}

pub proof fn lemma_sub_expression(m: LexerView, ctx: ParseContext)
    requires
        m.wf(),
    ensures
        ok_follows(sub_expression(m, ctx), m),
        match sub_expression(m, ctx) {
            Ok((Some(_), n)) => n.potential() < m.potential(),
            _ => true,
        },
    decreases m.potential(), 0nat, 0nat,
{
    lemma_next(m, ctx);
    match token(m, ctx) {
        Ok(m1) => {
            lemma_backtrack(m1);
            let kind = m1.current().kind;
            if kind == TokenEnum::LPARENS {
                lemma_parenthesized(m1);
            } else if kind == TokenEnum::LBRACKET {
                lemma_list(m1);
            } else if kind == TokenEnum::LET {
                lemma_let_expression(m1);
            } else if kind == TokenEnum::CASE {
                lemma_case_expression(m1);
            }
        },
        Err(_) => {},
    }
}

pub proof fn lemma_parenthesized(m: LexerView)
    requires
        m.wf(),
    ensures
        ok_follows(parenthesized(m), m),
    decreases m.potential(), 0nat, 9nat,
{
    lemma_expressions_sep(m, Seq::empty());
}

pub proof fn lemma_expressions_sep(m: LexerView, acc: Seq<ExprV>)
    requires
        m.wf(),
    ensures
        ok_follows_on_token(expressions_sep(m, acc), m),
    decreases m.potential(), 0nat, 8nat,
{
    lemma_expression_(m);
    match checked(expression_(m), m) {
        Ok((e, m1)) => {
            lemma_next(m1, ParseContext::Anything);
            match token(m1, ParseContext::Anything) {
                Ok(m2) => {
                    if m2.current().kind == TokenEnum::COMMA {
                        lemma_expressions_sep(m2, acc.push(e));
                    }
                },
                Err(_) => {},
            }
        },
        Err(_) => {},
    }
}

pub proof fn lemma_list(m: LexerView)
    requires
        m.wf(),
    ensures
        ok_follows(list(m), m),
    decreases m.potential(), 0nat, 9nat,
{
    lemma_expression(m);
    match checked(expression(m), m) {
        Ok((None, m1)) => {
            lemma_require(m1, TokenEnum::RBRACKET);
        },
        Ok((Some(e), m1)) => {
            lemma_list_rest(m1, seq![e]);
        },
        Err(_) => {},
    }
}

pub proof fn lemma_list_rest(m: LexerView, acc: Seq<ExprV>)
    requires
        m.wf(),
    ensures
        ok_follows(list_rest(m, acc), m),
    decreases m.potential(), 0nat, 8nat,
{
    lemma_next(m, ParseContext::Anything);
    match token(m, ParseContext::Anything) {
        Ok(m1) => {
            if m1.current().kind == TokenEnum::COMMA {
                lemma_expression(m1);
                match checked(expression(m1), m1) {
                    Ok((Some(e), m2)) => {
                        lemma_list_rest(m2, acc.push(e));
                    },
                    _ => {},
                }
            }
        },
        Err(_) => {},
    }
}

pub proof fn lemma_let_expression(m: LexerView)
    requires
        m.wf(),
    ensures
        ok_follows(let_expression(m), m),
    decreases m.potential(), 0nat, 10nat,
{
    lemma_require(m, TokenEnum::LBRACE);
    match require(m, TokenEnum::LBRACE) {
        Ok(m1) => {
            lemma_bindings_sep(m1, Seq::empty());
            match checked(bindings_sep(m1, Seq::empty()), m1) {
                Ok((_, m2)) => {
                    lemma_next(m2, ParseContext::LetExpressionEnd);
                    match token(m2, ParseContext::LetExpressionEnd) {
                        Ok(m3) => {
                            if m3.current().kind == TokenEnum::IN {
                                lemma_expression(m3);
                            }
                        },
                        Err(_) => {},
                    }
                },
                Err(_) => {},
            }
        },
        Err(_) => {},
    }
}

pub proof fn lemma_case_expression(m: LexerView)
    requires
        m.wf(),
    ensures
        ok_follows(case_expression(m), m),
    decreases m.potential(), 0nat, 10nat,
{
    lemma_expression_(m);
    match checked(expression_(m), m) {
        Ok((_, m1)) => {
            lemma_require(m1, TokenEnum::OF);
            match require(m1, TokenEnum::OF) {
                Ok(m2) => {
                    lemma_require(m2, TokenEnum::LBRACE);
                    match require(m2, TokenEnum::LBRACE) {
                        Ok(m3) => {
                            lemma_alternatives_sep(m3, Seq::empty());
                        },
                        Err(_) => {},
                    }
                },
                Err(_) => {},
            }
        },
        Err(_) => {},
    }
}

pub proof fn lemma_alternative(m: LexerView)
    requires
        m.wf(),
    ensures
        ok_follows(alternative(m), m),
    decreases m.potential(), 0nat, 8nat,
{
    lemma_pattern(m);
    match checked(pattern(m), m) {
        Ok((_, m1)) => {
            lemma_require(m1, TokenEnum::ARROW);
            match require(m1, TokenEnum::ARROW) {
                Ok(m2) => {
                    lemma_expression_(m2);
                },
                Err(_) => {},
            }
        },
        Err(_) => {},
    }
}

pub proof fn lemma_alternatives_sep(m: LexerView, acc: Seq<(PatternV, ExprV)>)
    requires
        m.wf(),
    ensures
        ok_follows_on_token(alternatives_sep(m, acc), m),
    decreases m.potential(), 0nat, 9nat,
{
    lemma_alternative(m);
    match checked(alternative(m), m) {
        Ok((a, m1)) => {
            lemma_next(m1, ParseContext::Anything);
            match token(m1, ParseContext::Anything) {
                Ok(m2) => {
                    if m2.current().kind == TokenEnum::SEMICOLON {
                        lemma_alternatives_sep(m2, acc.push(a));
                    }
                },
                Err(_) => {},
            }
        },
        Err(_) => {},
    }
}

pub proof fn lemma_bindings_sep(m: LexerView, acc: Seq<crate::decl::BindingV>)
    requires
        m.wf(),
    ensures
        ok_follows_on_token(bindings_sep(m, acc), m),
    decreases m.potential(), 0nat, 9nat,
{
    lemma_binding(m);
    match checked(binding(m), m) {
        Ok((b, m1)) => {
            lemma_next(m1, ParseContext::Anything);
            match token(m1, ParseContext::Anything) {
                Ok(m2) => {
                    if m2.current().kind == TokenEnum::SEMICOLON {
                        lemma_bindings_sep(m2, acc.push(b));
                    }
                },
                Err(_) => {},
            }
        },
        Err(_) => {},
    }
}

pub proof fn lemma_binding(m: LexerView)
    requires
        m.wf(),
    ensures
        ok_advances(binding(m), m),
    decreases m.potential(), 0nat, 8nat,
{
    lemma_declared_name(m);
    match crate::grammar::declared_name(m) {
        Ok((_, m1)) => {
            lemma_binding_arguments(m1, Seq::empty());
            match crate::grammar::binding_arguments(m1, Seq::empty()) {
                Ok((_, m2)) => {
                    if m2.current().kind == TokenEnum::EQUALSSIGN {
                        lemma_expression_(m2);
                    }
                },
                Err(_) => {},
            }
        },
        Err(_) => {},
    }
}

pub proof fn lemma_expression_(m: LexerView)
    requires
        m.wf(),
    ensures
        ok_follows(expression_(m), m),
    decreases m.potential(), 0nat, 7nat,
{
    lemma_expression(m);
}

pub proof fn lemma_expression(m: LexerView)
    requires
        m.wf(),
    ensures
        ok_follows(expression(m), m),
    decreases m.potential(), 0nat, 6nat,
{
    lemma_application(m);
    match checked(application(m), m) {
        Ok((app, m1)) => {
            lemma_operator_expression(m1, app, 0);
        },
        Err(_) => {},
    }
}

pub proof fn lemma_application(m: LexerView)
    requires
        m.wf(),
    ensures
        ok_follows(application(m), m),
    decreases m.potential(), 0nat, 2nat,
{
    lemma_sub_expression(m, ParseContext::Anything);
    match checked(sub_expression(m, ParseContext::Anything), m) {
        Ok((Some(_), m1)) => {
            lemma_application_arguments(m1, Seq::empty());
        },
        _ => {},
    }
}

pub proof fn lemma_application_arguments(m: LexerView, acc: Seq<ExprV>)
    requires
        m.wf(),
    ensures
        ok_follows(application_arguments(m, acc), m),
    decreases m.potential(), 0nat, 1nat,
{
    lemma_sub_expression(m, ParseContext::Application);
    match checked(sub_expression(m, ParseContext::Application), m) {
        Ok((Some(e), m1)) => {
            lemma_application_arguments(m1, acc.push(e));
        },
        _ => {},
    }
}

pub proof fn lemma_operator_expression(m: LexerView, lhs: Option<ExprV>, min_precedence: int)
    requires
        m.wf(),
    ensures
        ok_follows(operator_expression(m, lhs, min_precedence), m),
    decreases m.potential(), 0nat, 5nat,
{
    lemma_next(m, ParseContext::Anything);
    match token(m, ParseContext::Anything) {
        Ok(m1) => {
            lemma_operator_loop(m1, lhs, min_precedence);
        },
        Err(_) => {},
    }
}

/// The operators behind an operand give back no more than the token under
/// the reader cost, and nothing where that token is an operator they take.
pub proof fn lemma_operator_loop(m: LexerView, lhs: Option<ExprV>, min_precedence: int)
    requires
        m.wf(),
        m.valid(),
    ensures
        match operator_loop(m, lhs, min_precedence) {
            Ok((_, n)) => {
                &&& n.wf()
                &&& n.input == m.input
                &&& n.potential() <= m.potential() + cost(m.current().kind)
                &&& at_operator(m) && spec_precedence(m.current().lexeme) >= min_precedence
                    ==> n.potential() <= m.potential()
            },
            Err(_) => true,
        },
    decreases m.potential(), operator_flag(m), 3nat,
{
    lemma_backtrack(m);
    if at_operator(m) && spec_precedence(m.current().lexeme) >= min_precedence {
        lemma_application(m);
        match checked(application(m), m) {
            Ok((rhs, m1)) => {
                lemma_next(m1, ParseContext::Anything);
                match token(m1, ParseContext::Anything) {
                    Ok(m2) => {
                        let op = m.current().lexeme;
                        lemma_operator_rhs(m2, rhs, spec_precedence(op));
                        lemma_operator_tail(
                            operator_rhs(m2, rhs, spec_precedence(op)),
                            m,
                            lhs,
                            min_precedence,
                        );
                    },
                    Err(_) => {},
                }
            },
            Err(_) => {},
        }
    }
}

pub proof fn lemma_operator_tail(
    r: Parsed<Option<ExprV>>,
    m: LexerView,
    lhs: Option<ExprV>,
    min_precedence: int,
)
    requires
        m.wf(),
        at_operator(m),
        match r {
            Ok((_, n)) => n.wf() && n.valid() && n.input == m.input && n.potential() + cost(
                n.current().kind,
            ) <= m.potential(),
            Err(_) => true,
        },
    ensures
        ok_follows(operator_tail(r, m, lhs, min_precedence), m),
        match r {
            Ok((_, n)) => precedes(n, m),
            Err(_) => true,
        },
    decreases m.potential(), operator_flag(m), 2nat,
{
    match r {
        Ok((rhs, n)) => {
            match crate::grammar::combine(lhs, m.current().lexeme, rhs) {
                Some(e) => {
                    lemma_operator_loop(n, Some(e), min_precedence);
                },
                None => {},
            }
        },
        Err(_) => {},
    }
}

pub proof fn lemma_operator_rhs(m: LexerView, rhs: Option<ExprV>, precedence: int)
    requires
        m.wf(),
        m.valid(),
    ensures
        match operator_rhs(m, rhs, precedence) {
            Ok((_, n)) => n.wf() && n.valid() && n.input == m.input && n.potential() + cost(
                n.current().kind,
            ) <= m.potential() + cost(m.current().kind),
            Err(_) => true,
        },
    decreases m.potential(), operator_flag(m), 4nat,
{
    if at_operator(m) && spec_precedence(m.current().lexeme) > precedence {
        let stronger = spec_precedence(m.current().lexeme);
        lemma_operator_loop(m, rhs, stronger);
        match checked(operator_loop(m, rhs, stronger), m) {
            Ok((rhs, m1)) => {
                lemma_next(m1, ParseContext::Anything);
                match token(m1, ParseContext::Anything) {
                    Ok(m2) => {
                        lemma_operator_rhs(m2, rhs, precedence);
                    },
                    Err(_) => {},
                }
            },
            Err(_) => {},
        }
    }
}

pub proof fn lemma_type_atom(m: LexerView, vars: VarMapV, strict: bool, with_args: bool)
    requires
        m.wf(),
    ensures
        ok_follows(type_atom(m, vars, strict, with_args), m),
    decreases m.potential(), 0nat, 6nat,
{
    let kind = m.current().kind;
    if kind == TokenEnum::LBRACKET {
        lemma_parse_type(m, vars, strict);
        match checked(parse_type(m, vars, strict), m) {
            Ok((_, m1)) => {
                lemma_require(m1, TokenEnum::RBRACKET);
            },
            Err(_) => {},
        }
    } else if kind == TokenEnum::LPARENS {
        lemma_types_sep(m, vars, strict, Seq::empty());
    } else if kind == TokenEnum::NAME {
        if with_args {
            lemma_type_arguments(m, vars, strict, Seq::empty());
        }
    }
}

pub proof fn lemma_type_arguments(m: LexerView, vars: VarMapV, strict: bool, acc: Seq<TypeV>)
    requires
        m.wf(),
    ensures
        ok_follows(type_arguments(m, vars, strict, acc), m),
    decreases m.potential(), 0nat, 2nat,
{
    lemma_next(m, ParseContext::Anything);
    match token(m, ParseContext::Anything) {
        Ok(m1) => {
            lemma_backtrack(m1);
            if crate::grammar_types::starts_type(m1.current().kind) {
                lemma_type_atom(m1, vars, strict, false);
                match checked(type_atom(m1, vars, strict, false), m1) {
                    Ok(((t, vars), m2)) => {
                        lemma_type_arguments(m2, vars, strict, acc.push(t));
                    },
                    Err(_) => {},
                }
            }
        },
        Err(_) => {},
    }
}

pub proof fn lemma_parse_type(m: LexerView, vars: VarMapV, strict: bool)
    requires
        m.wf(),
    ensures
        ok_advances(parse_type(m, vars, strict), m),
    decreases m.potential(), 0nat, 4nat,
{
    lemma_next(m, ParseContext::Anything);
    match token(m, ParseContext::Anything) {
        Ok(m1) => {
            if crate::grammar_types::starts_type(m1.current().kind) {
                lemma_type_atom(m1, vars, strict, true);
                match checked(type_atom(m1, vars, strict, true), m1) {
                    Ok(((t, vars), m2)) => {
                        lemma_return_type(m2, t, vars, strict);
                    },
                    Err(_) => {},
                }
            }
        },
        Err(_) => {},
    }
}

pub proof fn lemma_return_type(m: LexerView, from: TypeV, vars: VarMapV, strict: bool)
    requires
        m.wf(),
    ensures
        ok_follows(return_type(m, from, vars, strict), m),
    decreases m.potential(), 0nat, 3nat,
{
    lemma_next(m, ParseContext::Anything);
    match token(m, ParseContext::Anything) {
        Ok(m1) => {
            lemma_backtrack(m1);
            if m1.current().kind == TokenEnum::ARROW {
                lemma_parse_type(m1, vars, strict);
            }
        },
        Err(_) => {},
    }
}

pub proof fn lemma_types_sep(m: LexerView, vars: VarMapV, strict: bool, acc: Seq<TypeV>)
    requires
        m.wf(),
    ensures
        ok_follows_on_token(types_sep(m, vars, strict, acc), m),
    decreases m.potential(), 0nat, 5nat,
{
    lemma_parse_type(m, vars, strict);
    match checked(parse_type(m, vars, strict), m) {
        Ok(((t, vars), m1)) => {
            lemma_next(m1, ParseContext::Anything);
            match token(m1, ParseContext::Anything) {
                Ok(m2) => {
                    if m2.current().kind == TokenEnum::COMMA {
                        lemma_types_sep(m2, vars, strict, acc.push(t));
                    }
                },
                Err(_) => {},
            }
        },
        Err(_) => {},
    }
}

pub proof fn lemma_pattern(m: LexerView)
    requires
        m.wf(),
    ensures
        ok_follows(pattern(m), m),
    decreases m.potential(), 0nat, 3nat,
{
    lemma_next(m, ParseContext::Anything);
    match token(m, ParseContext::Anything) {
        Ok(m1) => {
            let kind = m1.current().kind;
            if kind == TokenEnum::LBRACKET {
                lemma_require(m1, TokenEnum::RBRACKET);
            } else if kind == TokenEnum::NAME || kind == TokenEnum::OPERATOR {
                lemma_pattern_parameter(m1, Seq::empty());
            } else if kind == TokenEnum::LPARENS {
                lemma_patterns_sep(m1, Seq::empty());
            }
        },
        Err(_) => {},
    }
}

pub proof fn lemma_pattern_parameter(m: LexerView, acc: Seq<PatternV>)
    requires
        m.wf(),
    ensures
        ok_follows(pattern_parameter(m, acc), m),
    decreases m.potential(), 0nat, 2nat,
{
    lemma_next(m, ParseContext::Anything);
    match token(m, ParseContext::Anything) {
        Ok(m1) => {
            lemma_backtrack(m1);
            let kind = m1.current().kind;
            if kind == TokenEnum::NAME {
                lemma_pattern_parameter(m1, acc.push(PatternV::Identifier(m1.current().lexeme)));
            } else if kind == TokenEnum::NUMBER {
                match crate::grammar_types::number_pattern(m1.current().lexeme) {
                    Ok(p) => {
                        lemma_pattern_parameter(m1, acc.push(p));
                    },
                    Err(_) => {},
                }
            } else if kind == TokenEnum::LPARENS {
                lemma_patterns_sep(m1, Seq::empty());
                match checked(patterns_sep(m1, Seq::empty()), m1) {
                    Ok((args, m2)) => {
                        if m2.current().kind == TokenEnum::RPARENS {
                            if args.len() == 1 {
                                lemma_pattern_parameter(m2, acc.push(args[0]));
                            } else {
                                lemma_pattern_parameter(
                                    m2,
                                    acc.push(
                                        PatternV::Constructor(
                                            crate::sugar::spec_tuple_name(args.len()),
                                            args,
                                        ),
                                    ),
                                );
                            }
                        }
                    },
                    Err(_) => {},
                }
            }
        },
        Err(_) => {},
    }
}

pub proof fn lemma_patterns_sep(m: LexerView, acc: Seq<PatternV>)
    requires
        m.wf(),
    ensures
        ok_follows_on_token(patterns_sep(m, acc), m),
    decreases m.potential(), 0nat, 4nat,
{
    lemma_pattern(m);
    match checked(pattern(m), m) {
        Ok((p, m1)) => {
            lemma_next(m1, ParseContext::Anything);
            match token(m1, ParseContext::Anything) {
                Ok(m2) => {
                    if m2.current().kind == TokenEnum::COMMA {
                        lemma_patterns_sep(m2, acc.push(p));
                    }
                },
                Err(_) => {},
            }
        },
        Err(_) => {},
    }
}

pub proof fn lemma_require_name(m: LexerView)
    requires
        m.wf(),
    ensures
        ok_advances(require_name(m), m),
{
    lemma_require(m, TokenEnum::NAME);
}

pub proof fn lemma_require_block(m: LexerView)
    requires
        m.wf(),
    ensures
        match require_block(m) {
            Ok(n) => follows(n, m) && n.potential() < m.potential(),
            Err(_) => true,
        },
{
    lemma_require(m, TokenEnum::WHERE);
    match require(m, TokenEnum::WHERE) {
        Ok(m1) => {
            lemma_require(m1, TokenEnum::LBRACE);
        },
        Err(_) => {},
    }
}

pub proof fn lemma_type_declaration(m: LexerView, vars: VarMapV)
    requires
        m.wf(),
    ensures
        ok_advances(type_declaration(m, vars), m),
{
    lemma_declared_name(m);
    match crate::grammar::declared_name(m) {
        Ok((_, m1)) => {
            lemma_require(m1, TokenEnum::TYPEDECL);
            match require(m1, TokenEnum::TYPEDECL) {
                Ok(m2) => {
                    lemma_parse_type(m2, vars, false);
                    match parse_type(m2, vars, false) {
                        Ok(((_, vars), m3)) => {
                            lemma_next(m3, ParseContext::Anything);
                            match token(m3, ParseContext::Anything) {
                                Ok(m4) => {
                                    lemma_backtrack(m4);
                                    if at_context_arrow(m4) {
                                        lemma_parse_type(m4, vars, false);
                                    }
                                },
                                Err(_) => {},
                            }
                        },
                        Err(_) => {},
                    }
                },
                Err(_) => {},
            }
        },
        Err(_) => {},
    }
}

pub proof fn lemma_type_declarations_sep(m: LexerView, vars: VarMapV, acc: Seq<TypeDeclarationV>)
    requires
        m.wf(),
    ensures
        ok_follows_on_token(type_declarations_sep(m, vars, acc), m),
        ok_advances(type_declarations_sep(m, vars, acc), m),
    decreases m.potential(),
{
    lemma_type_declaration(m, vars);
    match checked(type_declaration(m, vars), m) {
        Ok(((decl, vars), m1)) => {
            lemma_next(m1, ParseContext::Anything);
            match token(m1, ParseContext::Anything) {
                Ok(m2) => {
                    if m2.current().kind == TokenEnum::SEMICOLON {
                        lemma_type_declarations_sep(m2, vars, acc.push(decl));
                    }
                },
                Err(_) => {},
            }
        },
        Err(_) => {},
    }
}

pub proof fn lemma_class(m: LexerView)
    requires
        m.wf(),
    ensures
        ok_advances(class_(m), m),
{
    lemma_require(m, TokenEnum::CLASS);
    match require(m, TokenEnum::CLASS) {
        Ok(m1) => {
            lemma_require_name(m1);
            match require_name(m1) {
                Ok((_, m2)) => {
                    lemma_require_name(m2);
                    match require_name(m2) {
                        Ok((variable, m3)) => {
                            lemma_require_block(m3);
                            match require_block(m3) {
                                Ok(m4) => {
                                    lemma_type_declarations_sep(
                                        m4,
                                        seq![(variable, crate::grammar_decl::CLASS_VARIABLE as int)],
                                        Seq::empty(),
                                    );
                                },
                                Err(_) => {},
                            }
                        },
                        Err(_) => {},
                    }
                },
                Err(_) => {},
            }
        },
        Err(_) => {},
    }
}

pub proof fn lemma_instance(m: LexerView)
    requires
        m.wf(),
    ensures
        ok_advances(instance(m), m),
{
    lemma_require(m, TokenEnum::INSTANCE);
    match require(m, TokenEnum::INSTANCE) {
        Ok(m1) => {
            lemma_require_name(m1);
            match require_name(m1) {
                Ok((_, m2)) => {
                    lemma_parse_type(m2, Seq::empty(), false);
                    match parse_type(m2, Seq::empty(), false) {
                        Ok((_, m3)) => {
                            lemma_require_block(m3);
                            match require_block(m3) {
                                Ok(m4) => {
                                    lemma_bindings_sep(m4, Seq::empty());
                                },
                                Err(_) => {},
                            }
                        },
                        Err(_) => {},
                    }
                },
                Err(_) => {},
            }
        },
        Err(_) => {},
    }
}

pub proof fn lemma_constructor_arguments(m: LexerView, vars: VarMapV, acc: Seq<TypeV>)
    requires
        m.wf(),
    ensures
        match constructor_arguments(m, vars, acc) {
            Ok((_, n)) => n.wf() && n.valid() && n.input == m.input && n.potential() + cost(
                n.current().kind,
            ) <= m.potential(),
            Err(_) => true,
        },
    decreases m.potential(),
{
    lemma_next(m, ParseContext::Constructor);
    match token(m, ParseContext::Constructor) {
        Ok(m1) => {
            if crate::grammar_types::starts_type(m1.current().kind) {
                lemma_type_atom(m1, vars, true, false);
                match checked(type_atom(m1, vars, true, false), m1) {
                    Ok(((t, vars), m2)) => {
                        lemma_constructor_arguments(m2, vars, acc.push(t));
                    },
                    Err(_) => {},
                }
            }
        },
        Err(_) => {},
    }
}

pub proof fn lemma_constructor(m: LexerView, vars: VarMapV, result: TypeV)
    requires
        m.wf(),
    ensures
        ok_advances(constructor(m, vars, result), m),
{
    lemma_require_name(m);
    match require_name(m) {
        Ok((_, m1)) => {
            lemma_constructor_arguments(m1, vars, Seq::empty());
            match constructor_arguments(m1, vars, Seq::empty()) {
                Ok((_, m2)) => {
                    lemma_backtrack(m2);
                },
                Err(_) => {},
            }
        },
        Err(_) => {},
    }
}

pub proof fn lemma_constructors_sep(m: LexerView, vars: VarMapV, result: TypeV, acc: Seq<ConstructorV>)
    requires
        m.wf(),
    ensures
        match constructors_sep(m, vars, result, acc) {
            Ok((_, n)) => n.wf() && n.valid() && n.input == m.input && n.potential() + cost(
                n.current().kind,
            ) < m.potential(),
            Err(_) => true,
        },
    decreases m.potential(),
{
    lemma_constructor(m, vars, result);
    match checked(constructor(m, vars, result), m) {
        Ok(((c, vars), m1)) => {
            lemma_next(m1, ParseContext::Anything);
            match token(m1, ParseContext::Anything) {
                Ok(m2) => {
                    if at_bar(m2) {
                        lemma_constructors_sep(
                            m2,
                            vars,
                            result,
                            acc.push(ConstructorV { tag: acc.len() as int, ..c }),
                        );
                    }
                },
                Err(_) => {},
            }
        },
        Err(_) => {},
    }
}

pub proof fn lemma_data_parameters(m: LexerView, vars: VarMapV, count: nat)
    requires
        m.wf(),
    ensures
        ok_follows_on_token(data_parameters(m, vars, count), m),
    decreases m.potential(),
{
    lemma_next(m, ParseContext::Anything);
    match token(m, ParseContext::Anything) {
        Ok(m1) => {
            if m1.current().kind == TokenEnum::NAME {
                match resolve(vars, m1.current().lexeme, -1, false) {
                    Some((_, vars)) => {
                        lemma_data_parameters(m1, vars, count + 1);
                    },
                    None => {},
                }
            }
        },
        Err(_) => {},
    }
}

pub proof fn lemma_data_definition(m: LexerView)
    requires
        m.wf(),
    ensures
        ok_advances(data_definition(m), m),
{
    lemma_require(m, TokenEnum::DATA);
    match require(m, TokenEnum::DATA) {
        Ok(m1) => {
            lemma_require_name(m1);
            match require_name(m1) {
                Ok((name, m2)) => {
                    lemma_data_parameters(m2, Seq::empty(), 0);
                    match data_parameters(m2, Seq::empty(), 0) {
                        Ok(((vars, count), m3)) => {
                            if m3.current().kind == TokenEnum::EQUALSSIGN {
                                let typ = TypeV::Operator(
                                    name,
                                    crate::grammar_decl::fresh_variables(count),
                                );
                                lemma_constructors_sep(m3, vars, typ, Seq::empty());
                                match constructors_sep(m3, vars, typ, Seq::empty()) {
                                    Ok((_, m4)) => {
                                        lemma_backtrack(m4);
                                    },
                                    Err(_) => {},
                                }
                            }
                        },
                        Err(_) => {},
                    }
                },
                Err(_) => {},
            }
        },
        Err(_) => {},
    }
}

/// Reading ahead and stepping back leaves no more work than there was in
/// front of the declaration: in `start`, the state in which the reader
/// stood on the declaration's first token, stepped back once.
pub proof fn lemma_lookahead(m: LexerView, n: nat, start: LexerView)
    requires
        m.wf(),
        start.wf(),
        start.valid(),
        1 <= n < LOOKAHEAD_LIMIT,
        m.input == start.input,
        m.cursor() == start.cursor() + n - 1,
        m.offset <= 1 || m.offset + n - 1 <= start.offset,
        rewound(m, n).potential() <= rewound(start, 1).potential(),
    ensures
        match lookahead(m, n) {
            Ok((_, r)) => r.wf() && r.input == start.input && r.potential() <= rewound(
                start,
                1,
            ).potential(),
            Err(_) => true,
        },
    decreases m.potential(),
{
    lemma_offset_bound(m);
    lemma_offset_bound(start);
    lemma_next(m, ParseContext::Binding);
    match token(m, ParseContext::Binding) {
        Ok(m1) => {
            lemma_next_then_back(m, ParseContext::Binding, n);
            lemma_offset_bound(m1);
            let kind = m1.current().kind;
            if kind == TokenEnum::TYPEDECL || !in_declaration_head(kind) {
                lemma_rewound_wf(m1, n + 1);
            } else if n + 1 < LOOKAHEAD_LIMIT {
                lemma_lookahead(m1, n + 1, start);
            }
        },
        Err(_) => {},
    }
}

pub proof fn lemma_module_end(m: LexerView, acc: ModuleV)
    requires
        m.wf(),
    ensures
        ok_follows(module_end(m, acc), m),
{
    lemma_next(m, ParseContext::Anything);
}

pub proof fn lemma_top_level(m: LexerView, acc: ModuleV)
    requires
        m.wf(),
    ensures
        ok_follows(top_level(m, acc), m),
    decreases m.potential(), 1nat,
{
    lemma_next(m, ParseContext::TopLevel);
    match token(m, ParseContext::TopLevel) {
        Ok(m1) => {
            lemma_backtrack(m1);
            let back = m1.backtrack();
            let kind = m1.current().kind;
            if kind == TokenEnum::NAME || kind == TokenEnum::LPARENS {
                assert(rewound(m1, 1) == back);
                lemma_lookahead(m1, 1, m1);
                match checked(lookahead(m1, 1), m) {
                    Ok((true, m2)) => {
                        lemma_type_declaration(m2, Seq::empty());
                        match checked(type_declaration(m2, Seq::empty()), m2) {
                            Ok(((decl, _), m3)) => {
                                lemma_separator(
                                    m3,
                                    ModuleV {
                                        type_declarations: acc.type_declarations.push(decl),
                                        ..acc
                                    },
                                );
                            },
                            Err(_) => {},
                        }
                    },
                    Ok((false, m2)) => {
                        lemma_binding(m2);
                        match checked(binding(m2), m2) {
                            Ok((b, m3)) => {
                                lemma_separator(
                                    m3,
                                    ModuleV { bindings: acc.bindings.push(b), ..acc },
                                );
                            },
                            Err(_) => {},
                        }
                    },
                    Err(_) => {},
                }
            } else if kind == TokenEnum::CLASS {
                lemma_class(back);
                match checked(class_(back), back) {
                    Ok((c, m3)) => {
                        lemma_separator(m3, ModuleV { classes: acc.classes.push(c), ..acc });
                    },
                    Err(_) => {},
                }
            } else if kind == TokenEnum::INSTANCE {
                lemma_instance(back);
                match checked(instance(back), back) {
                    Ok((i, m3)) => {
                        lemma_separator(m3, ModuleV { instances: acc.instances.push(i), ..acc });
                    },
                    Err(_) => {},
                }
            } else if kind == TokenEnum::DATA {
                lemma_data_definition(back);
                match checked(data_definition(back), back) {
                    Ok((d, m3)) => {
                        lemma_separator(
                            m3,
                            ModuleV { data_definitions: acc.data_definitions.push(d), ..acc },
                        );
                    },
                    Err(_) => {},
                }
            } else {
                lemma_module_end(m1, acc);
            }
        },
        Err(_) => {},
    }
}

pub proof fn lemma_separator(m: LexerView, acc: ModuleV)
    requires
        m.wf(),
    ensures
        ok_follows(separator(m, acc), m),
    decreases m.potential(), 0nat,
{
    lemma_next(m, ParseContext::TopLevelNewBind);
    match token(m, ParseContext::TopLevelNewBind) {
        Ok(m1) => {
            if m1.current().kind == TokenEnum::SEMICOLON {
                lemma_top_level(m1, acc);
            } else {
                lemma_module_end(m1, acc);
            }
        },
        Err(_) => {},
    }
}

pub proof fn lemma_module(m: LexerView)
    requires
        m.wf(),
    ensures
        ok_follows(module(m), m),
{
    lemma_next(m, ParseContext::Anything);
    match module_header(m) {
        Ok((name, m1)) => {
            match token(m, ParseContext::Anything) {
                Ok(first) => {
                    if first.current().kind == TokenEnum::MODULE {
                        lemma_require_name(first);
                        match require_name(first) {
                            Ok((_, m2)) => {
                                lemma_require_block(m2);
                            },
                            Err(_) => {},
                        }
                    }
                },
                Err(_) => {},
            }
            lemma_top_level(m1, crate::grammar_decl::empty_module(name));
        },
        Err(_) => {},
    }
}

} // verus!
