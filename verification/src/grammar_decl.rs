//! The grammar of declarations and of whole modules.

use vstd::prelude::*;
use crate::ast::{TypeV, spec_function_type};
use crate::context::ParseContext;
use crate::decl::{
    BindingV, ClassV, ConstructorV, DataDefinitionV, InstanceV, ModuleV, TypeDeclarationV,
};
use crate::error::ParseError;
use crate::grammar::{Parsed, binding, bindings_sep, checked, declared_name, follows, require, token};
use crate::grammar_types::{parse_type, starts_type, type_atom};
use crate::layout::{LexerView, lemma_backtrack, lemma_next, rewound};
use crate::sugar::{spec_encode_binding_identifier, spec_type_constraints};
use crate::token::TokenEnum;
use crate::varmap::{VarMapV, resolve};

verus! {

/// How many tokens the parser reads ahead at most to tell a type
/// declaration from a binding.
pub const LOOKAHEAD_LIMIT: usize = 19;

/// The number of the type variable of a class.
pub const CLASS_VARIABLE: isize = 100;

/// The declaration that `context => typ` or `typ` alone makes of `name`:
/// in front of `=>` stands a class constraint or a tuple of them.
pub open spec fn with_context(name: Seq<char>, context: TypeV, typ: TypeV) -> Result<TypeDeclarationV, ParseError> {
    match context {
        TypeV::Variable(_) => Err(ParseError::ExpectedTypeContext),
        TypeV::Operator(class, args) => match spec_type_constraints(class, args) {
            None => Err(ParseError::ExpectedConstraint),
            Some(constraints) => Ok(TypeDeclarationV { context: constraints, typ, name }),
        },
    }
}

/// Whether the reader stands on `=>`.
pub open spec fn at_context_arrow(m: LexerView) -> bool {
    m.current().kind == TokenEnum::OPERATOR && m.current().lexeme == "=>"@
}

/// `type_decl := (NAME | '(' (NAME | OPERATOR) ')') '::' type ('=>' type)?`.
pub open spec fn type_declaration(m: LexerView, vars: VarMapV) -> Parsed<(TypeDeclarationV, VarMapV)> {
    match declared_name(m) {
        Err(e) => Err(e),
        Ok((name, m1)) => match require(m1, TokenEnum::TYPEDECL) {
            Err(e) => Err(e),
            Ok(m2) => match parse_type(m2, vars, false) {
                Err(e) => Err(e),
                Ok(((t, vars), m3)) => match token(m3, ParseContext::Anything) {
                    Err(e) => Err(e),
                    Ok(m4) => if at_context_arrow(m4) {
                        match parse_type(m4, vars, false) {
                            Err(e) => Err(e),
                            Ok(((typ, vars), m5)) => match with_context(name, t, typ) {
                                Err(e) => Err(e),
                                Ok(decl) => Ok(((decl, vars), m5)),
                            },
                        }
                    } else {
                        Ok(
                            (
                                (TypeDeclarationV { context: Seq::empty(), typ: t, name }, vars),
                                m4.backtrack(),
                            ),
                        )
                    },
                },
            },
        },
    }
}

/// Type declarations between semicolons, at least one, behind those of
/// `acc`; they share the variables of `vars`. The token that ends them is
/// consumed.
pub open spec fn type_declarations_sep(m: LexerView, vars: VarMapV, acc: Seq<TypeDeclarationV>) -> Parsed<Seq<TypeDeclarationV>>
    decreases m.potential(),
    when m.wf()
{
    match checked(type_declaration(m, vars), m) {
        Err(e) => Err(e),
        Ok(((decl, vars), m1)) => match token(m1, ParseContext::Anything) {
            Err(e) => Err(e),
            Ok(m2) => {
                proof {
                    lemma_next(m1, ParseContext::Anything);
                }
                if m2.current().kind == TokenEnum::SEMICOLON {
                    type_declarations_sep(m2, vars, acc.push(decl))
                } else {
                    Ok((acc.push(decl), m2))
                }
            },
        },
    }
}

/// The next token, which has to be a name.
pub open spec fn require_name(m: LexerView) -> Parsed<Seq<char>> {
    match require(m, TokenEnum::NAME) {
        Err(e) => Err(e),
        Ok(n) => Ok((n.current().lexeme, n)),
    }
}

/// `where` and `{`.
pub open spec fn require_block(m: LexerView) -> Result<LexerView, ParseError> {
    match require(m, TokenEnum::WHERE) {
        Err(e) => Err(e),
        Ok(m1) => require(m1, TokenEnum::LBRACE),
    }
}

/// `class := 'class' NAME NAME 'where' '{' type_decl (';' type_decl)* '}'`.
/// The class's type variable is the variable 100 in every declaration.
pub open spec fn class_(m: LexerView) -> Parsed<ClassV> {
    match require(m, TokenEnum::CLASS) {
        Err(e) => Err(e),
        Ok(m1) => match require_name(m1) {
            Err(e) => Err(e),
            Ok((name, m2)) => match require_name(m2) {
                Err(e) => Err(e),
                Ok((variable, m3)) => match require_block(m3) {
                    Err(e) => Err(e),
                    Ok(m4) => match type_declarations_sep(
                        m4,
                        seq![(variable, CLASS_VARIABLE as int)],
                        Seq::empty(),
                    ) {
                        Err(e) => Err(e),
                        Ok((declarations, m5)) => if m5.current().kind != TokenEnum::RBRACE {
                            Err(ParseError::Expected(TokenEnum::RBRACE))
                        } else {
                            Ok((ClassV { name, declarations }, m5))
                        },
                    },
                },
            },
        },
    }
}

/// The bindings of an instance, each under its instance-qualified name.
pub open spec fn renamed(bindings: Seq<BindingV>, instance_type: Seq<char>) -> Seq<BindingV> {
    Seq::new(
        bindings.len(),
        |i: int|
            BindingV {
                name: spec_encode_binding_identifier(instance_type, bindings[i].name),
                ..bindings[i]
            },
    )
}

/// `instance := 'instance' NAME type 'where' '{' binding (';' binding)* '}'`.
pub open spec fn instance(m: LexerView) -> Parsed<InstanceV> {
    match require(m, TokenEnum::INSTANCE) {
        Err(e) => Err(e),
        Ok(m1) => match require_name(m1) {
            Err(e) => Err(e),
            Ok((classname, m2)) => match parse_type(m2, Seq::empty(), false) {
                Err(e) => Err(e),
                Ok(((typ, _), m3)) => match typ {
                    TypeV::Variable(_) => Err(ParseError::ExpectedTypeOperator),
                    TypeV::Operator(instance_type, _) => match require_block(m3) {
                        Err(e) => Err(e),
                        Ok(m4) => match bindings_sep(m4, Seq::empty()) {
                            Err(e) => Err(e),
                            Ok((bindings, m5)) => if m5.current().kind != TokenEnum::RBRACE {
                                Err(ParseError::Expected(TokenEnum::RBRACE))
                            } else {
                                Ok(
                                    (
                                        InstanceV {
                                            bindings: renamed(bindings, instance_type),
                                            typ,
                                            classname,
                                        },
                                        m5,
                                    ),
                                )
                            },
                        },
                    },
                },
            },
        },
    }
}

/// The type of a function that takes `args` one by one and gives `result`.
pub open spec fn function_chain(args: Seq<TypeV>, result: TypeV) -> TypeV
    decreases args.len(),
{
    if args.len() == 0 {
        result
    } else {
        function_chain(args.drop_last(), spec_function_type(args.last(), result))
    }
}

/// The argument types of a constructor, behind those of `acc`: atoms
/// without arguments, whose variables are those of `vars`. The token that
/// starts no atom is consumed.
pub open spec fn constructor_arguments(m: LexerView, vars: VarMapV, acc: Seq<TypeV>) -> Parsed<(Seq<TypeV>, VarMapV)>
    decreases m.potential(),
    when m.wf()
{
    match token(m, ParseContext::Constructor) {
        Err(e) => Err(e),
        Ok(m1) => {
            proof {
                lemma_next(m, ParseContext::Constructor);
            }
            if starts_type(m1.current().kind) {
                match checked(type_atom(m1, vars, true, false), m1) {
                    Err(e) => Err(e),
                    Ok(((t, vars), m2)) => constructor_arguments(m2, vars, acc.push(t)),
                }
            } else {
                Ok(((acc, vars), m1))
            }
        },
    }
}

/// `constructor := NAME type_atom*`, for a data type `result` with the
/// parameters `vars`; a name that `vars` does not hold is undefined. The
/// token behind the constructor stays unread.
pub open spec fn constructor(m: LexerView, vars: VarMapV, result: TypeV) -> Parsed<(ConstructorV, VarMapV)> {
    match require_name(m) {
        Err(e) => Err(e),
        Ok((name, m1)) => match constructor_arguments(m1, vars, Seq::empty()) {
            Err(e) => Err(e),
            Ok(((args, vars), m2)) => Ok(
                (
                    (
                        ConstructorV {
                            name,
                            typ: function_chain(args, result),
                            tag: 0,
                            arity: args.len() as int,
                        },
                        vars,
                    ),
                    m2.backtrack(),
                ),
            ),
        },
    }
}

/// Whether the reader stands on the `|` between constructors.
pub open spec fn at_bar(m: LexerView) -> bool {
    m.current().kind == TokenEnum::OPERATOR && m.current().lexeme == "|"@
}

/// Constructors between `|`, at least one, behind those of `acc`, each
/// tagged with its place. The token that ends them is consumed.
pub open spec fn constructors_sep(m: LexerView, vars: VarMapV, result: TypeV, acc: Seq<ConstructorV>) -> Parsed<Seq<ConstructorV>>
    decreases m.potential(),
    when m.wf()
{
    match checked(constructor(m, vars, result), m) {
        Err(e) => Err(e),
        Ok(((c, vars), m1)) => match token(m1, ParseContext::Anything) {
            Err(e) => Err(e),
            Ok(m2) => {
                proof {
                    lemma_next(m1, ParseContext::Anything);
                }
                let tagged = acc.push(ConstructorV { tag: acc.len() as int, ..c });
                if at_bar(m2) {
                    constructors_sep(m2, vars, result, tagged)
                } else {
                    Ok((tagged, m2))
                }
            },
        },
    }
}

/// The parameters of a data type: the names up to the first token that is
/// no name, which is consumed. Each name is entered in `vars` once;
/// `count` counts them all.
pub open spec fn data_parameters(m: LexerView, vars: VarMapV, count: nat) -> Parsed<(VarMapV, nat)>
    decreases m.potential(),
    when m.wf()
{
    match token(m, ParseContext::Anything) {
        Err(e) => Err(e),
        Ok(m1) => {
            proof {
                lemma_next(m, ParseContext::Anything);
            }
            if m1.current().kind == TokenEnum::NAME {
                match resolve(vars, m1.current().lexeme, -1, false) {
                    Some((_, vars)) => data_parameters(m1, vars, count + 1),
                    None => Err(arbitrary()),
                }
            } else {
                Ok(((vars, count), m1))
            }
        },
    }
}

/// The parameter table of a data type as the definition keeps it.
pub open spec fn as_parameters(vars: VarMapV) -> Seq<(Seq<char>, TypeV)> {
    Seq::new(vars.len(), |i: int| (vars[i].0, TypeV::Variable(vars[i].1)))
}

/// `count` type variables that are not numbered yet.
pub open spec fn fresh_variables(count: nat) -> Seq<TypeV> {
    Seq::new(count, |i: int| TypeV::Variable(-1))
}

/// `data_def := 'data' NAME NAME* '=' constructor ('|' constructor)*`. The
/// token behind the definition stays unread.
pub open spec fn data_definition(m: LexerView) -> Parsed<DataDefinitionV> {
    match require(m, TokenEnum::DATA) {
        Err(e) => Err(e),
        Ok(m1) => match require_name(m1) {
            Err(e) => Err(e),
            Ok((name, m2)) => data_body(data_parameters(m2, Seq::empty(), 0), name),
        },
    }
}

/// Behind the parameters `r` of the data type `name`: `=` and the
/// constructors.
pub open spec fn data_body(r: Parsed<(VarMapV, nat)>, name: Seq<char>) -> Parsed<DataDefinitionV> {
    match r {
        Err(e) => Err(e),
        Ok(((vars, count), m)) => if m.current().kind != TokenEnum::EQUALSSIGN {
            Err(ParseError::Expected(TokenEnum::EQUALSSIGN))
        } else {
            let typ = TypeV::Operator(name, fresh_variables(count));
            match constructors_sep(m, vars, typ, Seq::empty()) {
                Err(e) => Err(e),
                Ok((constructors, m1)) => Ok(
                    (
                        DataDefinitionV { constructors, typ, parameters: as_parameters(vars) },
                        m1.backtrack(),
                    ),
                ),
            }
        },
    }
}

/// Whether a token of kind `kind` can stand between the start of a
/// declaration and its `::` or `=`.
pub open spec fn in_declaration_head(kind: TokenEnum) -> bool {
    kind == TokenEnum::NAME || kind == TokenEnum::OPERATOR || kind == TokenEnum::LPARENS || kind
        == TokenEnum::RPARENS
}

/// Reads ahead from the `n`-th token of a declaration, past names,
/// operators and parentheses, and tells whether `::` ends them; then the
/// reader is back in front of the declaration. A head of more than
/// `LOOKAHEAD_LIMIT` tokens is an error.
pub open spec fn lookahead(m: LexerView, n: nat) -> Parsed<bool>
    decreases m.potential(),
    when m.wf()
{
    match token(m, ParseContext::Binding) {
        Err(e) => Err(e),
        Ok(m1) => {
            proof {
                lemma_next(m, ParseContext::Binding);
            }
            if m1.current().kind == TokenEnum::TYPEDECL {
                Ok((true, rewound(m1, n + 1)))
            } else if !in_declaration_head(m1.current().kind) {
                Ok((false, rewound(m1, n + 1)))
            } else if n + 1 >= LOOKAHEAD_LIMIT {
                Err(ParseError::LookaheadTooDeep)
            } else {
                lookahead(m1, n + 1)
            }
        },
    }
}

/// The declaration of `name` among `decls`, the last one where there are
/// several, or `default` where there is none.
pub open spec fn declared(name: Seq<char>, decls: Seq<TypeDeclarationV>, default: TypeDeclarationV) -> TypeDeclarationV
    decreases decls.len(),
{
    if decls.len() == 0 {
        default
    } else if decls.last().name == name {
        decls.last()
    } else {
        declared(name, decls.drop_last(), default)
    }
}

/// The bindings, each with the type declared for its name.
pub open spec fn attach(bindings: Seq<BindingV>, decls: Seq<TypeDeclarationV>) -> Seq<BindingV> {
    Seq::new(
        bindings.len(),
        |i: int|
            BindingV {
                type_decl: declared(bindings[i].name, decls, bindings[i].type_decl),
                ..bindings[i]
            },
    )
}

/// The start of a module: `module NAME where {`, or `{` alone, which
/// starts the module `Main`.
pub open spec fn module_header(m: LexerView) -> Parsed<Seq<char>> {
    match token(m, ParseContext::Anything) {
        Err(e) => Err(e),
        Ok(m1) => if m1.current().kind == TokenEnum::MODULE {
            match require_name(m1) {
                Err(e) => Err(e),
                Ok((name, m2)) => match require_block(m2) {
                    Err(e) => Err(e),
                    Ok(m3) => Ok((name, m3)),
                },
            }
        } else if m1.current().kind == TokenEnum::LBRACE {
            Ok(("Main"@, m1))
        } else {
            Err(ParseError::Expected(TokenEnum::LBRACE))
        },
    }
}

/// A module without declarations.
pub open spec fn empty_module(name: Seq<char>) -> ModuleV {
    ModuleV {
        name,
        bindings: Seq::empty(),
        type_declarations: Seq::empty(),
        classes: Seq::empty(),
        instances: Seq::empty(),
        data_definitions: Seq::empty(),
    }
}

/// The end of a module, with the reader on the token behind the last
/// declaration: `}` and the end of the input.
pub open spec fn module_end(m: LexerView, acc: ModuleV) -> Parsed<ModuleV> {
    if m.current().kind != TokenEnum::RBRACE {
        Err(ParseError::Expected(TokenEnum::RBRACE))
    } else {
        match token(m, ParseContext::Anything) {
            Err(e) => Err(e),
            Ok(m1) => if m1.current().kind != TokenEnum::EOF {
                Err(ParseError::UnexpectedAfterModule(m1.current().kind))
            } else {
                Ok((ModuleV { bindings: attach(acc.bindings, acc.type_declarations), ..acc }, m1))
            },
        }
    }
}

/// `top (';' top)*`, behind the declarations of `acc`, and the end of the
/// module. A declaration that starts with a name or a parenthesis is a type
/// declaration where `::` follows its head, and else a binding.
pub open spec fn top_level(m: LexerView, acc: ModuleV) -> Parsed<ModuleV>
    decreases m.potential(), 1nat,
    when m.wf()
{
    match token(m, ParseContext::TopLevel) {
        Err(e) => Err(e),
        Ok(m1) => {
            proof {
                lemma_next(m, ParseContext::TopLevel);
                if m1.valid() {
                    lemma_backtrack(m1);
                }
            }
            let kind = m1.current().kind;
            if kind == TokenEnum::NAME || kind == TokenEnum::LPARENS {
                match checked(lookahead(m1, 1), m) {
                    Err(e) => Err(e),
                    Ok((true, m2)) => match checked(type_declaration(m2, Seq::empty()), m2) {
                        Err(e) => Err(e),
                        Ok(((decl, _), m3)) => separator(
                            m3,
                            ModuleV { type_declarations: acc.type_declarations.push(decl), ..acc },
                        ),
                    },
                    Ok((false, m2)) => match checked(binding(m2), m2) {
                        Err(e) => Err(e),
                        Ok((b, m3)) => separator(
                            m3,
                            ModuleV { bindings: acc.bindings.push(b), ..acc },
                        ),
                    },
                }
            } else if kind == TokenEnum::CLASS {
                match checked(class_(m1.backtrack()), m1.backtrack()) {
                    Err(e) => Err(e),
                    Ok((c, m3)) => separator(m3, ModuleV { classes: acc.classes.push(c), ..acc }),
                }
            } else if kind == TokenEnum::INSTANCE {
                match checked(instance(m1.backtrack()), m1.backtrack()) {
                    Err(e) => Err(e),
                    Ok((i, m3)) => separator(
                        m3,
                        ModuleV { instances: acc.instances.push(i), ..acc },
                    ),
                }
            } else if kind == TokenEnum::DATA {
                match checked(data_definition(m1.backtrack()), m1.backtrack()) {
                    Err(e) => Err(e),
                    Ok((d, m3)) => separator(
                        m3,
                        ModuleV { data_definitions: acc.data_definitions.push(d), ..acc },
                    ),
                }
            } else {
                module_end(m1, acc)
            }
        },
    }
}

/// Behind a declaration: `;` and the declarations that follow, or the end
/// of the module.
pub open spec fn separator(m: LexerView, acc: ModuleV) -> Parsed<ModuleV>
    decreases m.potential(), 0nat,
    when m.wf()
{
    match token(m, ParseContext::TopLevelNewBind) {
        Err(e) => Err(e),
        Ok(m1) => {
            proof {
                lemma_next(m, ParseContext::TopLevelNewBind);
            }
            if m1.current().kind == TokenEnum::SEMICOLON {
                top_level(m1, acc)
            } else {
                module_end(m1, acc)
            }
        },
    }
}

/// `module := ('module' NAME 'where')? '{' top (';' top)* '}' EOF`.
pub open spec fn module(m: LexerView) -> Parsed<ModuleV> {
    match module_header(m) {
        Err(e) => Err(e),
        Ok((name, m1)) => top_level(m1, empty_module(name)),
    }
}

} // verus!
