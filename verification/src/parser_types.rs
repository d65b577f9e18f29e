//! The parser for types and for patterns.

use vstd::prelude::*;
use crate::ast::{
    Pattern, PatternV, Type, TypeV, TypeVariable, function_type, lemma_constructor_pattern_view,
    patterns_view, types_view,
};
use crate::context::ParseContext;
use crate::error::ParseError;
use crate::grammar::{Parsed, follows};
use crate::grammar_types::{
    named_type, parse_type, pattern, pattern_parameter, patterns_sep, return_type, starts_type,
    type_arguments, type_atom, types_sep,
};
use crate::layout::LexerView;
use crate::parser::Parser;
use crate::sugar::{parse_number, starts_uppercase, tuple_name, tuple_type};
use crate::token::TokenEnum;
use crate::varmap::{TypeVariables, VarMapV};

verus! {

pub open spec fn yields_type(
    r: Result<Type, ParseError>,
    vars: VarMapV,
    after: LexerView,
    spec: Parsed<(TypeV, VarMapV)>,
    before: LexerView,
) -> bool {
    match spec {
        Ok(((t, v), m)) => r.is_ok() && r.unwrap()@ == t && vars == v && after == m && follows(
            m,
            before,
        ),
        Err(e) => r == Err::<Type, ParseError>(e),
    }
}

pub open spec fn yields_types(
    r: Result<Vec<Type>, ParseError>,
    vars: VarMapV,
    after: LexerView,
    spec: Parsed<(Seq<TypeV>, VarMapV)>,
    before: LexerView,
) -> bool {
    match spec {
        Ok(((t, v), m)) => r.is_ok() && types_view(r.unwrap()@) == t && vars == v && after == m
            && follows(m, before),
        Err(e) => r == Err::<Vec<Type>, ParseError>(e),
    }
}

pub open spec fn yields_pattern(
    r: Result<Pattern, ParseError>,
    after: LexerView,
    spec: Parsed<PatternV>,
    before: LexerView,
) -> bool {
    match spec {
        Ok((v, m)) => r.is_ok() && r.unwrap()@ == v && after == m && follows(m, before),
        Err(e) => r == Err::<Pattern, ParseError>(e),
    }
}

pub open spec fn yields_patterns(
    r: Result<Vec<Pattern>, ParseError>,
    after: LexerView,
    spec: Parsed<Seq<PatternV>>,
    before: LexerView,
) -> bool {
    match spec {
        Ok((v, m)) => r.is_ok() && patterns_view(r.unwrap()@) == v && after == m && follows(
            m,
            before,
        ),
        Err(e) => r == Err::<Vec<Pattern>, ParseError>(e),
    }
}

/// Whether a type can start with a token of kind `kind`.
pub fn kind_starts_type(kind: TokenEnum) -> (r: bool)
    ensures
        r == starts_type(kind),
{
    kind == TokenEnum::LBRACKET || kind == TokenEnum::LPARENS || kind == TokenEnum::NAME
}

/// The type that `name` stands for when applied to `args`.
pub fn make_named_type(name: String, args: Vec<Type>, vars: &mut TypeVariables, strict: bool) -> (r: Result<Type, ParseError>)
    ensures
        match named_type(name@, types_view(args@), old(vars)@, strict) {
            Ok((t, v)) => r.is_ok() && r.unwrap()@ == t && final(vars)@ == v,
            Err(e) => r == Err::<Type, ParseError>(e),
        },
{
    if starts_uppercase(name.as_str()) {
        Ok(Type::new_op(name, args))
    } else {
        match vars.find_or_insert(name, TypeVariable { id: -1 }, strict) {
            Some(v) => Ok(Type::TypeVariable(v)),
            None => Err(ParseError::UndefinedTypeParameter),
        }
    }
}

impl Parser {
    /// A type whose names all stand for new variables.
    pub fn parse_type(&mut self) -> (r: Result<Type, ParseError>)
        requires
            old(self).wf(),
        ensures
            final(self).wf(),
            match parse_type(old(self)@, Seq::empty(), false) {
                Ok(((t, _), m)) => r.is_ok() && r.unwrap()@ == t && final(self)@ == m && follows(
                    m,
                    old(self)@,
                ),
                Err(e) => r == Err::<Type, ParseError>(e),
            },
    {
        let mut vars = TypeVariables::new();
        self.parse_type_(&mut vars, false)
    }

    /// A type. `vars` holds the variables of the names seen so far.
    pub fn parse_type_(&mut self, vars: &mut TypeVariables, strict: bool) -> (r: Result<Type, ParseError>)
        requires
            old(self).wf(),
        ensures
            final(self).wf(),
            yields_type(
                r,
                final(vars)@,
                final(self)@,
                parse_type(old(self)@, old(vars)@, strict),
                old(self)@,
            ),
            r.is_ok() ==> final(self)@.potential() < old(self)@.potential(),
        decreases old(self)@.potential(), 0nat, 4nat,
    {
        let kind = match self.step(ParseContext::Anything) {
            Ok(kind) => kind,
            Err(e) => {
                return Err(e);
            },
        };
        if !kind_starts_type(kind) {
            return Err(ParseError::Expected(TokenEnum::NAME));
        }
        let atom = match self.type_atom(vars, strict, true) {
            Ok(atom) => atom,
            Err(e) => {
                return Err(e);
            },
        };
        self.parse_return_type(atom, vars, strict)
    }

    /// The atom on whose first token the reader stands.
    pub fn type_atom(&mut self, vars: &mut TypeVariables, strict: bool, with_args: bool) -> (r: Result<Type, ParseError>)
        requires
            old(self).wf(),
            old(self)@.valid(),
        ensures
            final(self).wf(),
            yields_type(
                r,
                final(vars)@,
                final(self)@,
                type_atom(old(self)@, old(vars)@, strict, with_args),
                old(self)@,
            ),
        decreases old(self)@.potential(), 0nat, 6nat,
    {
        let kind = self.kind();
        if kind == TokenEnum::LBRACKET {
            let t = match self.parse_type_(vars, strict) {
                Ok(t) => t,
                Err(e) => {
                    return Err(e);
                },
            };
            match self.require_next(TokenEnum::RBRACKET) {
                Ok(_) => {},
                Err(e) => {
                    return Err(e);
                },
            }
            let mut args: Vec<Type> = Vec::new();
            args.push(t);
            assert(types_view(args@) =~= seq![t@]);
            Ok(Type::new_op("[]".to_owned(), args))
        } else if kind == TokenEnum::LPARENS {
            let mut types = match self.types_sep(vars, strict) {
                Ok(types) => types,
                Err(e) => {
                    return Err(e);
                },
            };
            if self.kind() != TokenEnum::RPARENS {
                return Err(ParseError::Expected(TokenEnum::RPARENS));
            }
            if types.len() == 1 {
                let ghost all = types_view(types@);
                let only = types.pop().unwrap();
                assert(only@ == all[0]);
                Ok(only)
            } else {
                Ok(tuple_type(types))
            }
        } else if kind == TokenEnum::NAME {
            let name = self.lexeme();
            if with_args {
                let args = match self.type_arguments(vars, strict) {
                    Ok(args) => args,
                    Err(e) => {
                        return Err(e);
                    },
                };
                make_named_type(name, args, vars, strict)
            } else {
                let args: Vec<Type> = Vec::new();
                assert(types_view(args@) =~= Seq::empty());
                make_named_type(name, args, vars, strict)
            }
        } else {
            Err(ParseError::Expected(TokenEnum::NAME))
        }
    }

    /// The atoms that follow a name.
    fn type_arguments(&mut self, vars: &mut TypeVariables, strict: bool) -> (r: Result<Vec<Type>, ParseError>)
        requires
            old(self).wf(),
        ensures
            final(self).wf(),
            yields_types(
                r,
                final(vars)@,
                final(self)@,
                type_arguments(old(self)@, old(vars)@, strict, Seq::empty()),
                old(self)@,
            ),
        decreases old(self)@.potential(), 0nat, 2nat,
    {
        let mut arguments: Vec<Type> = Vec::new();
        assert(types_view(arguments@) =~= Seq::empty());
        loop
            invariant
                self.wf(),
                old(self).wf(),
                follows(self@, old(self)@),
                type_arguments(old(self)@, old(vars)@, strict, Seq::empty()) == type_arguments(
                    self@,
                    vars@,
                    strict,
                    types_view(arguments@),
                ),
            decreases self@.potential(),
        {
            let ghost acc = types_view(arguments@);
            let kind = match self.step(ParseContext::Anything) {
                Ok(kind) => kind,
                Err(e) => {
                    return Err(e);
                },
            };
            if !kind_starts_type(kind) {
                self.back();
                return Ok(arguments);
            }
            let t = match self.type_atom(vars, strict, false) {
                Ok(t) => t,
                Err(e) => {
                    return Err(e);
                },
            };
            arguments.push(t);
            assert(types_view(arguments@) =~= acc.push(t@));
        }
    }

    /// Behind the type `typ`: `->` and the type of the result, or nothing.
    pub fn parse_return_type(&mut self, typ: Type, vars: &mut TypeVariables, strict: bool) -> (r: Result<Type, ParseError>)
        requires
            old(self).wf(),
        ensures
            final(self).wf(),
            yields_type(
                r,
                final(vars)@,
                final(self)@,
                return_type(old(self)@, typ@, old(vars)@, strict),
                old(self)@,
            ),
        decreases old(self)@.potential(), 0nat, 3nat,
    {
        let arrow = match self.step(ParseContext::Anything) {
            Ok(kind) => kind,
            Err(e) => {
                return Err(e);
            },
        };
        if arrow == TokenEnum::ARROW {
            match self.parse_type_(vars, strict) {
                Ok(to) => Ok(function_type(&typ, &to)),
                Err(e) => Err(e),
            }
        } else {
            self.back();
            Ok(typ)
        }
    }

    /// Types between commas, at least one.
    fn types_sep(&mut self, vars: &mut TypeVariables, strict: bool) -> (r: Result<Vec<Type>, ParseError>)
        requires
            old(self).wf(),
        ensures
            final(self).wf(),
            yields_types(
                r,
                final(vars)@,
                final(self)@,
                types_sep(old(self)@, old(vars)@, strict, Seq::empty()),
                old(self)@,
            ),
            r.is_ok() ==> final(self)@.valid() && r.unwrap()@.len() >= 1,
        decreases old(self)@.potential(), 0nat, 5nat,
    {
        let mut result: Vec<Type> = Vec::new();
        assert(types_view(result@) =~= Seq::empty());
        loop
            invariant
                self.wf(),
                old(self).wf(),
                follows(self@, old(self)@),
                types_sep(old(self)@, old(vars)@, strict, Seq::empty()) == types_sep(
                    self@,
                    vars@,
                    strict,
                    types_view(result@),
                ),
            decreases self@.potential(),
        {
            let ghost acc = types_view(result@);
            let t = match self.parse_type_(vars, strict) {
                Ok(t) => t,
                Err(e) => {
                    return Err(e);
                },
            };
            result.push(t);
            assert(types_view(result@) =~= acc.push(t@));
            let kind = match self.step(ParseContext::Anything) {
                Ok(kind) => kind,
                Err(e) => {
                    return Err(e);
                },
            };
            if kind != TokenEnum::COMMA {
                return Ok(result);
            }
        }
    }

    pub fn pattern(&mut self) -> (r: Result<Pattern, ParseError>)
        requires
            old(self).wf(),
        ensures
            final(self).wf(),
            yields_pattern(r, final(self)@, pattern(old(self)@), old(self)@),
        decreases old(self)@.potential(), 0nat, 3nat,
    {
        let name_token = match self.step(ParseContext::Anything) {
            Ok(kind) => kind,
            Err(e) => {
                return Err(e);
            },
        };
        let name = self.lexeme();
        match name_token {
            TokenEnum::LBRACKET => {
                match self.require_next(TokenEnum::RBRACKET) {
                    Ok(_) => {},
                    Err(e) => {
                        return Err(e);
                    },
                }
                let args: Vec<Pattern> = Vec::new();
                let nil = "[]".to_owned();
                proof {
                    lemma_constructor_pattern_view(nil, args);
                    assert(patterns_view(args@) =~= Seq::empty());
                }
                Ok(Pattern::ConstructorPattern(nil, args))
            },
            TokenEnum::NAME | TokenEnum::OPERATOR => {
                let patterns = match self.pattern_parameter() {
                    Ok(patterns) => patterns,
                    Err(e) => {
                        return Err(e);
                    },
                };
                if starts_uppercase(name.as_str()) || *name.as_str() == *":" {
                    proof {
                        lemma_constructor_pattern_view(name, patterns);
                    }
                    Ok(Pattern::ConstructorPattern(name, patterns))
                } else if patterns.len() == 0 {
                    Ok(Pattern::IdentifierPattern(name))
                } else {
                    Err(ParseError::InvalidPattern)
                }
            },
            TokenEnum::NUMBER => match parse_number(name.as_str()) {
                Some(v) => Ok(Pattern::NumberPattern(v)),
                None => Err(ParseError::NumberTooLarge),
            },
            TokenEnum::LPARENS => {
                let tuple_args = match self.patterns_sep() {
                    Ok(patterns) => patterns,
                    Err(e) => {
                        return Err(e);
                    },
                };
                if self.kind() != TokenEnum::RPARENS {
                    return Err(ParseError::Expected(TokenEnum::RPARENS));
                }
                let constructor = tuple_name(tuple_args.len());
                proof {
                    lemma_constructor_pattern_view(constructor, tuple_args);
                }
                Ok(Pattern::ConstructorPattern(constructor, tuple_args))
            },
            _ => Err(ParseError::InvalidPattern),
        }
    }

    /// The arguments of a constructor pattern.
    pub fn pattern_parameter(&mut self) -> (r: Result<Vec<Pattern>, ParseError>)
        requires
            old(self).wf(),
        ensures
            final(self).wf(),
            yields_patterns(
                r,
                final(self)@,
                pattern_parameter(old(self)@, Seq::empty()),
                old(self)@,
            ),
        decreases old(self)@.potential(), 0nat, 2nat,
    {
        let mut parameters: Vec<Pattern> = Vec::new();
        assert(patterns_view(parameters@) =~= Seq::empty());
        loop
            invariant
                self.wf(),
                old(self).wf(),
                follows(self@, old(self)@),
                pattern_parameter(old(self)@, Seq::empty()) == pattern_parameter(
                    self@,
                    patterns_view(parameters@),
                ),
            decreases self@.potential(),
        {
            let ghost acc = patterns_view(parameters@);
            let kind = match self.step(ParseContext::Anything) {
                Ok(kind) => kind,
                Err(e) => {
                    return Err(e);
                },
            };
            match kind {
                TokenEnum::NAME => {
                    let p = Pattern::IdentifierPattern(self.lexeme());
                    parameters.push(p);
                    assert(patterns_view(parameters@) =~= acc.push(p@));
                },
                TokenEnum::NUMBER => {
                    let text = self.lexeme();
                    match parse_number(text.as_str()) {
                        Some(v) => {
                            let p = Pattern::NumberPattern(v);
                            parameters.push(p);
                            assert(patterns_view(parameters@) =~= acc.push(p@));
                        },
                        None => {
                            return Err(ParseError::NumberTooLarge);
                        },
                    }
                },
                TokenEnum::LPARENS => {
                    let mut tuple_args = match self.patterns_sep() {
                        Ok(patterns) => patterns,
                        Err(e) => {
                            return Err(e);
                        },
                    };
                    if self.kind() != TokenEnum::RPARENS {
                        return Err(ParseError::Expected(TokenEnum::RPARENS));
                    }
                    let p = if tuple_args.len() == 1 {
                        let ghost all = patterns_view(tuple_args@);
                        let only = tuple_args.pop().unwrap();
                        assert(only@ == all[0]);
                        only
                    } else {
                        let constructor = tuple_name(tuple_args.len());
                        proof {
                            lemma_constructor_pattern_view(constructor, tuple_args);
                        }
                        Pattern::ConstructorPattern(constructor, tuple_args)
                    };
                    parameters.push(p);
                    assert(patterns_view(parameters@) =~= acc.push(p@));
                },
                _ => {
                    self.back();
                    return Ok(parameters);
                },
            }
        }
    }

    /// Patterns between commas, at least one.
    fn patterns_sep(&mut self) -> (r: Result<Vec<Pattern>, ParseError>)
        requires
            old(self).wf(),
        ensures
            final(self).wf(),
            yields_patterns(r, final(self)@, patterns_sep(old(self)@, Seq::empty()), old(self)@),
            r.is_ok() ==> final(self)@.valid() && r.unwrap()@.len() >= 1,
        decreases old(self)@.potential(), 0nat, 4nat,
    {
        let mut result: Vec<Pattern> = Vec::new();
        assert(patterns_view(result@) =~= Seq::empty());
        loop
            invariant
                self.wf(),
                old(self).wf(),
                follows(self@, old(self)@),
                patterns_sep(old(self)@, Seq::empty()) == patterns_sep(
                    self@,
                    patterns_view(result@),
                ),
            decreases self@.potential(),
        {
            let ghost acc = patterns_view(result@);
            let p = match self.pattern() {
                Ok(p) => p,
                Err(e) => {
                    return Err(e);
                },
            };
            result.push(p);
            assert(patterns_view(result@) =~= acc.push(p@));
            let kind = match self.step(ParseContext::Anything) {
                Ok(kind) => kind,
                Err(e) => {
                    return Err(e);
                },
            };
            if kind != TokenEnum::COMMA {
                return Ok(result);
            }
        }
    }
}

} // verus!
