//! The grammar of types and of patterns.

use vstd::prelude::*;
use crate::ast::{PatternV, TypeV, spec_function_type};
use crate::context::ParseContext;
use crate::error::ParseError;
use crate::grammar::{Parsed, checked, require, token};
use crate::layout::{LexerView, lemma_next};
use crate::sugar::{spec_parse_number, spec_starts_uppercase, spec_tuple_name, spec_tuple_type};
use crate::token::TokenEnum;
use crate::varmap::{VarMapV, resolve};

verus! {

/// Whether a type can start with a token of kind `kind`.
pub open spec fn starts_type(kind: TokenEnum) -> bool {
    kind == TokenEnum::LBRACKET || kind == TokenEnum::LPARENS || kind == TokenEnum::NAME
}

/// The type that `name` stands for when applied to `args`: the type
/// operator of that name if it begins in upper case, and else the type
/// variable that the table holds or enters for it.
pub open spec fn named_type(name: Seq<char>, args: Seq<TypeV>, vars: VarMapV, strict: bool) -> Result<(TypeV, VarMapV), ParseError> {
    if spec_starts_uppercase(name) {
        Ok((TypeV::Operator(name, args), vars))
    } else {
        match resolve(vars, name, -1, strict) {
            Some((id, vars)) => Ok((TypeV::Variable(id), vars)),
            None => Err(ParseError::UndefinedTypeParameter),
        }
    }
}

/// `type_atom := '[' type ']' | '(' type (',' type)* ')' | NAME type_atom*`,
/// with the reader on the first token. The arguments of a name are atoms
/// without arguments of their own, and are read only where `with_args`.
pub open spec fn type_atom(m: LexerView, vars: VarMapV, strict: bool, with_args: bool) -> Parsed<(TypeV, VarMapV)>
    decreases m.potential(), 0nat, 6nat,
    when m.wf()
{
    let kind = m.current().kind;
    if kind == TokenEnum::LBRACKET {
        match checked(parse_type(m, vars, strict), m) {
            Err(e) => Err(e),
            Ok(((t, vars), m1)) => match require(m1, TokenEnum::RBRACKET) {
                Err(e) => Err(e),
                Ok(m2) => Ok(((TypeV::Operator("[]"@, seq![t]), vars), m2)),
            },
        }
    } else if kind == TokenEnum::LPARENS {
        match types_sep(m, vars, strict, Seq::empty()) {
            Err(e) => Err(e),
            Ok(((types, vars), m1)) => if m1.current().kind != TokenEnum::RPARENS {
                Err(ParseError::Expected(TokenEnum::RPARENS))
            } else if types.len() == 1 {
                Ok(((types[0], vars), m1))
            } else {
                Ok(((spec_tuple_type(types), vars), m1))
            },
        }
    } else if kind == TokenEnum::NAME {
        let name = m.current().lexeme;
        if with_args {
            match type_arguments(m, vars, strict, Seq::empty()) {
                Err(e) => Err(e),
                Ok(((args, vars), m1)) => match named_type(name, args, vars, strict) {
                    Err(e) => Err(e),
                    Ok(r) => Ok((r, m1)),
                },
            }
        } else {
            match named_type(name, Seq::empty(), vars, strict) {
                Err(e) => Err(e),
                Ok(r) => Ok((r, m)),
            }
        }
    } else {
        Err(ParseError::Expected(TokenEnum::NAME))
    }
}

/// The atoms that follow, behind those of `acc`. The token that starts no
/// atom stays unread.
pub open spec fn type_arguments(m: LexerView, vars: VarMapV, strict: bool, acc: Seq<TypeV>) -> Parsed<(Seq<TypeV>, VarMapV)>
    decreases m.potential(), 0nat, 2nat,
    when m.wf()
{
    match token(m, ParseContext::Anything) {
        Err(e) => Err(e),
        Ok(m1) => {
            proof {
                lemma_next(m, ParseContext::Anything);
            }
            if starts_type(m1.current().kind) {
                match checked(type_atom(m1, vars, strict, false), m1) {
                    Err(e) => Err(e),
                    Ok(((t, vars), m2)) => type_arguments(m2, vars, strict, acc.push(t)),
                }
            } else {
                Ok(((acc, vars), m1.backtrack()))
            }
        },
    }
}

/// `type := type_atom ('->' type)?`. `vars` holds the variables of the
/// names seen so far; a name that is new to it is entered, or is an error
/// where `strict`.
pub open spec fn parse_type(m: LexerView, vars: VarMapV, strict: bool) -> Parsed<(TypeV, VarMapV)>
    decreases m.potential(), 0nat, 4nat,
    when m.wf()
{
    match token(m, ParseContext::Anything) {
        Err(e) => Err(e),
        Ok(m1) => {
            proof {
                lemma_next(m, ParseContext::Anything);
            }
            if starts_type(m1.current().kind) {
                match checked(type_atom(m1, vars, strict, true), m1) {
                    Err(e) => Err(e),
                    Ok(((t, vars), m2)) => return_type(m2, t, vars, strict),
                }
            } else {
                Err(ParseError::Expected(TokenEnum::NAME))
            }
        },
    }
}

/// Behind the type `from`: `->` and the type of the result, or nothing.
pub open spec fn return_type(m: LexerView, from: TypeV, vars: VarMapV, strict: bool) -> Parsed<(TypeV, VarMapV)>
    decreases m.potential(), 0nat, 3nat,
    when m.wf()
{
    match token(m, ParseContext::Anything) {
        Err(e) => Err(e),
        Ok(m1) => {
            proof {
                lemma_next(m, ParseContext::Anything);
            }
            if m1.current().kind == TokenEnum::ARROW {
                match parse_type(m1, vars, strict) {
                    Err(e) => Err(e),
                    Ok(((to, vars), m2)) => Ok(((spec_function_type(from, to), vars), m2)),
                }
            } else {
                Ok(((from, vars), m1.backtrack()))
            }
        },
    }
}

/// Types between commas, at least one, behind those of `acc`. The token
/// that ends them is consumed.
pub open spec fn types_sep(m: LexerView, vars: VarMapV, strict: bool, acc: Seq<TypeV>) -> Parsed<(Seq<TypeV>, VarMapV)>
    decreases m.potential(), 0nat, 5nat,
    when m.wf()
{
    match checked(parse_type(m, vars, strict), m) {
        Err(e) => Err(e),
        Ok(((t, vars), m1)) => match token(m1, ParseContext::Anything) {
            Err(e) => Err(e),
            Ok(m2) => {
                proof {
                    lemma_next(m1, ParseContext::Anything);
                }
                if m2.current().kind == TokenEnum::COMMA {
                    types_sep(m2, vars, strict, acc.push(t))
                } else {
                    Ok(((acc.push(t), vars), m2))
                }
            },
        },
    }
}

/// What a name with the arguments `args` is as a pattern: a constructor if
/// it begins in upper case or is `:`, and else a variable, which takes no
/// arguments.
pub open spec fn named_pattern(name: Seq<char>, args: Seq<PatternV>) -> Result<PatternV, ParseError> {
    if spec_starts_uppercase(name) || name == ":"@ {
        Ok(PatternV::Constructor(name, args))
    } else if args.len() == 0 {
        Ok(PatternV::Identifier(name))
    } else {
        Err(ParseError::InvalidPattern)
    }
}

/// What a number literal is as a pattern.
pub open spec fn number_pattern(lexeme: Seq<char>) -> Result<PatternV, ParseError> {
    match spec_parse_number(lexeme) {
        Some(v) => Ok(PatternV::Number(v)),
        None => Err(ParseError::NumberTooLarge),
    }
}

/// `pattern := '[' ']' | NAME pattern_arg* | OPERATOR pattern_arg* | NUMBER
///           | '(' pattern (',' pattern)* ')'`.
pub open spec fn pattern(m: LexerView) -> Parsed<PatternV>
    decreases m.potential(), 0nat, 3nat,
    when m.wf()
{
    match token(m, ParseContext::Anything) {
        Err(e) => Err(e),
        Ok(m1) => {
            proof {
                lemma_next(m, ParseContext::Anything);
            }
            let kind = m1.current().kind;
            let name = m1.current().lexeme;
            if kind == TokenEnum::LBRACKET {
                match require(m1, TokenEnum::RBRACKET) {
                    Err(e) => Err(e),
                    Ok(m2) => Ok((PatternV::Constructor("[]"@, Seq::empty()), m2)),
                }
            } else if kind == TokenEnum::NAME || kind == TokenEnum::OPERATOR {
                match pattern_parameter(m1, Seq::empty()) {
                    Err(e) => Err(e),
                    Ok((args, m2)) => match named_pattern(name, args) {
                        Err(e) => Err(e),
                        Ok(p) => Ok((p, m2)),
                    },
                }
            } else if kind == TokenEnum::NUMBER {
                match number_pattern(name) {
                    Err(e) => Err(e),
                    Ok(p) => Ok((p, m1)),
                }
            } else if kind == TokenEnum::LPARENS {
                match patterns_sep(m1, Seq::empty()) {
                    Err(e) => Err(e),
                    Ok((args, m2)) => if m2.current().kind != TokenEnum::RPARENS {
                        Err(ParseError::Expected(TokenEnum::RPARENS))
                    } else {
                        Ok((PatternV::Constructor(spec_tuple_name(args.len()), args), m2))
                    },
                }
            } else {
                Err(ParseError::InvalidPattern)
            }
        },
    }
}

/// The arguments of a constructor pattern, behind those of `acc`: names,
/// numbers, and patterns in parentheses, of which several between commas
/// make a tuple. The token that is none of these stays unread.
pub open spec fn pattern_parameter(m: LexerView, acc: Seq<PatternV>) -> Parsed<Seq<PatternV>>
    decreases m.potential(), 0nat, 2nat,
    when m.wf()
{
    match token(m, ParseContext::Anything) {
        Err(e) => Err(e),
        Ok(m1) => {
            proof {
                lemma_next(m, ParseContext::Anything);
            }
            let kind = m1.current().kind;
            if kind == TokenEnum::NAME {
                pattern_parameter(m1, acc.push(PatternV::Identifier(m1.current().lexeme)))
            } else if kind == TokenEnum::NUMBER {
                match number_pattern(m1.current().lexeme) {
                    Err(e) => Err(e),
                    Ok(p) => pattern_parameter(m1, acc.push(p)),
                }
            } else if kind == TokenEnum::LPARENS {
                match checked(patterns_sep(m1, Seq::empty()), m1) {
                    Err(e) => Err(e),
                    Ok((args, m2)) => if m2.current().kind != TokenEnum::RPARENS {
                        Err(ParseError::Expected(TokenEnum::RPARENS))
                    } else if args.len() == 1 {
                        pattern_parameter(m2, acc.push(args[0]))
                    } else {
                        pattern_parameter(
                            m2,
                            acc.push(PatternV::Constructor(spec_tuple_name(args.len()), args)),
                        )
                    },
                }
            } else {
                Ok((acc, m1.backtrack()))
            }
        },
    }
}

/// Patterns between commas, at least one, behind those of `acc`. The token
/// that ends them is consumed.
pub open spec fn patterns_sep(m: LexerView, acc: Seq<PatternV>) -> Parsed<Seq<PatternV>>
    decreases m.potential(), 0nat, 4nat,
    when m.wf()
{
    match checked(pattern(m), m) {
        Err(e) => Err(e),
        Ok((p, m1)) => match token(m1, ParseContext::Anything) {
            Err(e) => Err(e),
            Ok(m2) => {
                proof {
                    lemma_next(m1, ParseContext::Anything);
                }
                if m2.current().kind == TokenEnum::COMMA {
                    patterns_sep(m2, acc.push(p))
                } else {
                    Ok((acc.push(p), m2))
                }
            },
        },
    }
}

} // verus!
