//! The parser for declarations and for whole modules.

use vstd::prelude::*;
use crate::ast::{Type, TypeOperator, TypeV, TypeVariable, function_type, lemma_operator_view, types_view};
use crate::context::ParseContext;
use crate::decl::{
    Binding, Class, Constructor, DataDefinition, Instance, Module, ModuleV, TypeDeclaration,
    bindings_view, classes_view, constructors_view, data_definitions_view, instances_view,
    parameters_view, type_declarations_view,
};
use crate::error::ParseError;
use crate::grammar::{binding, bindings_sep, declared_name, follows, token};
use crate::grammar_decl::{
    CLASS_VARIABLE, LOOKAHEAD_LIMIT, as_parameters, attach, class_, constructor,
    constructor_arguments, constructors_sep, data_body, data_definition, data_parameters, declared,
    fresh_variables, function_chain, instance, lookahead, module, module_end, renamed,
    require_block, require_name, separator, top_level, type_declaration, type_declarations_sep,
};
use crate::grammar_types::{parse_type, type_atom};
use crate::layout::{
    LexerView, RING_CAPACITY, lemma_backtrack, lemma_next_then_back, lemma_offset_bound, rewound,
};
use crate::parser::Parser;
use crate::parser_types::kind_starts_type;
use crate::sugar::{create_type_constraints, encode_binding_identifier, operators_view};
use crate::token::TokenEnum;
use crate::varmap::{TypeVariables, VarMapV};

verus! {

/// The bindings, each with the type declared for its name.
pub fn attach_declarations(bindings: Vec<Binding>, decls: &Vec<TypeDeclaration>) -> (r: Vec<Binding>)
    ensures
        bindings_view(r@) == attach(bindings_view(bindings@), type_declarations_view(decls@)),
{
    let ghost all = bindings_view(bindings@);
    let ghost declarations = type_declarations_view(decls@);
    let ghost wanted = attach(all, declarations);
    let mut rest = bindings;
    let mut result: Vec<Binding> = Vec::new();
    while rest.len() > 0
        invariant
            result@.len() + rest@.len() == all.len(),
            declarations == type_declarations_view(decls@),
            wanted == attach(all, declarations),
            forall|i: int| 0 <= i < result@.len() ==> (#[trigger] result@[i])@ == wanted[i],
            forall|i: int| 0 <= i < rest@.len() ==> (#[trigger] rest@[i])@ == all[result@.len() + i],
        decreases rest.len(),
    {
        let ghost before = rest@;
        let ghost at = result@.len() as int;
        let b = rest.remove(0);
        assert(b@ == all[at]);
        assert forall|i: int| 0 <= i < rest@.len() implies (#[trigger] rest@[i])@ == all[at + 1
            + i] by {
            assert(rest@[i] == before[i + 1]);
        }
        let mut type_decl = b.type_decl;
        let mut k: usize = 0;
        assert(declarations.subrange(0, 0) =~= Seq::empty());
        while k < decls.len()
            invariant
                k <= decls.len(),
                declarations == type_declarations_view(decls@),
                type_decl@ == declared(b.name@, declarations.subrange(0, k as int), all[at].type_decl),
            decreases decls.len() - k,
        {
            let ghost shorter = declarations.subrange(0, k as int);
            let ghost longer = declarations.subrange(0, k + 1);
            assert(longer.drop_last() =~= shorter);
            assert(longer.last() == decls@[k as int]@);
            if decls[k].name == b.name {
                type_decl = decls[k].clone();
            }
            k += 1;
        }
        assert(declarations.subrange(0, decls.len() as int) =~= declarations);
        let attached = Binding { name: b.name, expression: b.expression, type_decl };
        result.push(attached);
    }
    assert(bindings_view(result@) =~= wanted);
    result
}

/// The bindings of an instance of the type `instance_type`, each under its
/// instance-qualified name.
pub fn rename_bindings(bindings: Vec<Binding>, instance_type: &str) -> (r: Vec<Binding>)
    ensures
        bindings_view(r@) == renamed(bindings_view(bindings@), instance_type@),
{
    let ghost all = bindings_view(bindings@);
    let ghost wanted = renamed(all, instance_type@);
    let mut rest = bindings;
    let mut result: Vec<Binding> = Vec::new();
    while rest.len() > 0
        invariant
            result@.len() + rest@.len() == all.len(),
            wanted == renamed(all, instance_type@),
            forall|i: int| 0 <= i < result@.len() ==> (#[trigger] result@[i])@ == wanted[i],
            forall|i: int| 0 <= i < rest@.len() ==> (#[trigger] rest@[i])@ == all[result@.len() + i],
        decreases rest.len(),
    {
        let ghost before = rest@;
        let ghost at = result@.len() as int;
        let b = rest.remove(0);
        assert(b@ == all[at]);
        assert forall|i: int| 0 <= i < rest@.len() implies (#[trigger] rest@[i])@ == all[at + 1
            + i] by {
            assert(rest@[i] == before[i + 1]);
        }
        let name = encode_binding_identifier(instance_type, b.name.as_str());
        result.push(Binding { name, expression: b.expression, type_decl: b.type_decl });
    }
    assert(bindings_view(result@) =~= wanted);
    result
}

/// The type of a function that takes `args` one by one and gives `result`.
pub fn make_function_chain(args: Vec<Type>, result: Type) -> (r: Type)
    ensures
        r@ == function_chain(types_view(args@), result@),
{
    let ghost whole = function_chain(types_view(args@), result@);
    let mut rest = args;
    let mut typ = result;
    while rest.len() > 0
        invariant
            function_chain(types_view(rest@), typ@) == whole,
        decreases rest.len(),
    {
        let ghost before = types_view(rest@);
        let last = rest.pop().unwrap();
        assert(types_view(rest@) =~= before.drop_last());
        typ = function_type(&last, &typ);
    }
    typ
}

impl Parser {
    /// Steps back over `k` tokens.
    fn rewind(&mut self, k: usize)
        requires
            old(self).wf(),
            old(self)@.offset + k <= old(self)@.retained(),
        ensures
            final(self).wf(),
            final(self)@ == rewound(old(self)@, k as nat),
    {
        let mut i: usize = 0;
        while i < k
            invariant
                i <= k,
                self.wf(),
                self@ == rewound(old(self)@, i as nat),
                old(self)@.offset + k <= old(self)@.retained(),
            decreases k - i,
        {
            self.back();
            i += 1;
        }
    }

    /// With the reader on the first token of a declaration: whether `::`
    /// ends the declaration's head. The reader is then back in front of
    /// the declaration.
    fn lookahead(&mut self) -> (r: Result<bool, ParseError>)
        requires
            old(self).wf(),
            old(self)@.valid(),
        ensures
            final(self).wf(),
            match lookahead(old(self)@, 1) {
                Ok((is_declaration, m)) => {
                    &&& r == Ok::<bool, ParseError>(is_declaration)
                    &&& final(self)@ == m
                    &&& m.input == old(self)@.input
                    &&& m.potential() <= rewound(old(self)@, 1).potential()
                },
                Err(e) => r == Err::<bool, ParseError>(e),
            },
    {
        let ghost start = self@;
        let mut n: usize = 1;
        proof {
            lemma_offset_bound(start);
        }
        loop
            invariant
                self.wf(),
                old(self).wf(),
                start == old(self)@,
                start.valid(),
                start.offset < RING_CAPACITY,
                1 <= n < LOOKAHEAD_LIMIT,
                self@.input == start.input,
                self@.cursor() == start.cursor() + n - 1,
                self@.offset <= 1 || self@.offset + n - 1 <= start.offset,
                rewound(self@, n as nat).potential() <= rewound(start, 1).potential(),
                lookahead(start, 1) == lookahead(self@, n as nat),
            decreases self@.potential(),
        {
            let ghost m = self@;
            proof {
                lemma_offset_bound(m);
            }
            let kind = match self.step(ParseContext::Binding) {
                Ok(kind) => kind,
                Err(e) => {
                    return Err(e);
                },
            };
            proof {
                lemma_next_then_back(m, ParseContext::Binding, n as nat);
                lemma_offset_bound(self@);
            }
            if kind == TokenEnum::TYPEDECL {
                self.rewind(n + 1);
                return Ok(true);
            }
            if !(kind == TokenEnum::NAME || kind == TokenEnum::OPERATOR || kind == TokenEnum::LPARENS
                || kind == TokenEnum::RPARENS) {
                self.rewind(n + 1);
                return Ok(false);
            }
            if n + 1 >= LOOKAHEAD_LIMIT {
                return Err(ParseError::LookaheadTooDeep);
            }
            n += 1;
        }
    }

    /// A type declaration whose names all stand for new variables.
    pub fn type_declaration(&mut self) -> (r: Result<TypeDeclaration, ParseError>)
        requires
            old(self).wf(),
        ensures
            final(self).wf(),
            match type_declaration(old(self)@, Seq::empty()) {
                Ok(((decl, _), m)) => r.is_ok() && r.unwrap()@ == decl && final(self)@ == m
                    && follows(m, old(self)@),
                Err(e) => r.is_err() && r.unwrap_err() == e,
            },
    {
        let mut vars = TypeVariables::new();
        self.type_declaration_(&mut vars)
    }

    /// A type declaration. `vars` holds the variables of the names seen so
    /// far.
    pub fn type_declaration_(&mut self, vars: &mut TypeVariables) -> (r: Result<TypeDeclaration, ParseError>)
        requires
            old(self).wf(),
        ensures
            final(self).wf(),
            match type_declaration(old(self)@, old(vars)@) {
                Ok(((decl, v), m)) => r.is_ok() && r.unwrap()@ == decl && final(vars)@ == v && final(self)@ == m && follows(m, old(self)@),
                Err(e) => r.is_err() && r.unwrap_err() == e,
            },
    {
        let name = match self.declared_name() {
            Ok(name) => name,
            Err(e) => {
                return Err(e);
            },
        };
        match self.require_next(TokenEnum::TYPEDECL) {
            Ok(_) => {},
            Err(e) => {
                return Err(e);
            },
        }
        let type_or_context = match self.parse_type_(vars, false) {
            Ok(t) => t,
            Err(e) => {
                return Err(e);
            },
        };
        let maybe_context_arrow = match self.step(ParseContext::Anything) {
            Ok(kind) => kind,
            Err(e) => {
                return Err(e);
            },
        };
        if maybe_context_arrow == TokenEnum::OPERATOR && *self.lexer.current().value.as_str()
            == *"=>" {
            let t = match self.parse_type_(vars, false) {
                Ok(t) => t,
                Err(e) => {
                    return Err(e);
                },
            };
            let op = match type_or_context {
                Type::TypeOperator(x) => x,
                Type::TypeVariable(_) => {
                    return Err(ParseError::ExpectedTypeContext);
                },
            };
            proof {
                lemma_operator_view(op);
            }
            let context = match create_type_constraints(op) {
                Ok(context) => context,
                Err(e) => {
                    return Err(e);
                },
            };
            Ok(TypeDeclaration { name, typ: t, context })
        } else {
            self.back();
            let context: Vec<TypeOperator> = Vec::new();
            assert(operators_view(context@) =~= Seq::empty());
            Ok(TypeDeclaration { name, typ: type_or_context, context })
        }
    }

    /// Type declarations between semicolons, at least one.
    fn type_declarations_sep(&mut self, vars: &mut TypeVariables) -> (r: Result<Vec<TypeDeclaration>, ParseError>)
        requires
            old(self).wf(),
        ensures
            final(self).wf(),
            match type_declarations_sep(old(self)@, old(vars)@, Seq::empty()) {
                Ok((decls, m)) => r.is_ok() && type_declarations_view(r.unwrap()@) == decls && final(self)@ == m && follows(m, old(self)@) && m.valid(),
                Err(e) => r.is_err() && r.unwrap_err() == e,
            },
    {
        let mut result: Vec<TypeDeclaration> = Vec::new();
        assert(type_declarations_view(result@) =~= Seq::empty());
        loop
            invariant
                self.wf(),
                old(self).wf(),
                follows(self@, old(self)@),
                type_declarations_sep(old(self)@, old(vars)@, Seq::empty()) == type_declarations_sep(
                    self@,
                    vars@,
                    type_declarations_view(result@),
                ),
            decreases self@.potential(),
        {
            let ghost acc = type_declarations_view(result@);
            let decl = match self.type_declaration_(vars) {
                Ok(decl) => decl,
                Err(e) => {
                    return Err(e);
                },
            };
            result.push(decl);
            assert(type_declarations_view(result@) =~= acc.push(decl@));
            let kind = match self.step(ParseContext::Anything) {
                Ok(kind) => kind,
                Err(e) => {
                    return Err(e);
                },
            };
            if kind != TokenEnum::SEMICOLON {
                return Ok(result);
            }
        }
    }

    /// The next token, which has to be a name; its text.
    fn require_name(&mut self) -> (r: Result<String, ParseError>)
        requires
            old(self).wf(),
        ensures
            final(self).wf(),
            match require_name(old(self)@) {
                Ok((name, m)) => r.is_ok() && r.unwrap()@ == name && final(self)@ == m && follows(
                    m,
                    old(self)@,
                ) && m.potential() < old(self)@.potential(),
                Err(e) => r.is_err() && r.unwrap_err() == e,
            },
    {
        match self.require_next(TokenEnum::NAME) {
            Ok(token) => Ok(token.value.clone()),
            Err(e) => Err(e),
        }
    }

    /// `where` and `{`.
    fn require_block(&mut self) -> (r: Result<(), ParseError>)
        requires
            old(self).wf(),
        ensures
            final(self).wf(),
            match require_block(old(self)@) {
                Ok(m) => r.is_ok() && final(self)@ == m && follows(m, old(self)@),
                Err(e) => r.is_err() && r.unwrap_err() == e,
            },
    {
        match self.require_next(TokenEnum::WHERE) {
            Ok(_) => {},
            Err(e) => {
                return Err(e);
            },
        }
        match self.require_next(TokenEnum::LBRACE) {
            Ok(_) => Ok(()),
            Err(e) => Err(e),
        }
    }

    pub fn class(&mut self) -> (r: Result<Class, ParseError>)
        requires
            old(self).wf(),
        ensures
            final(self).wf(),
            match class_(old(self)@) {
                Ok((c, m)) => r.is_ok() && r.unwrap()@ == c && final(self)@ == m && follows(
                    m,
                    old(self)@,
                ),
                Err(e) => r.is_err() && r.unwrap_err() == e,
            },
    {
        match self.require_next(TokenEnum::CLASS) {
            Ok(_) => {},
            Err(e) => {
                return Err(e);
            },
        }
        let classname = match self.require_name() {
            Ok(name) => name,
            Err(e) => {
                return Err(e);
            },
        };
        let type_variable_name = match self.require_name() {
            Ok(name) => name,
            Err(e) => {
                return Err(e);
            },
        };
        match self.require_block() {
            Ok(()) => {},
            Err(e) => {
                return Err(e);
            },
        }
        let mut type_variable_mapping = TypeVariables::new();
        type_variable_mapping.entries.push((type_variable_name, TypeVariable { id: CLASS_VARIABLE }));
        assert(type_variable_mapping@ =~= seq![(type_variable_name@, CLASS_VARIABLE as int)]);
        let declarations = match self.type_declarations_sep(&mut type_variable_mapping) {
            Ok(declarations) => declarations,
            Err(e) => {
                return Err(e);
            },
        };
        if self.kind() != TokenEnum::RBRACE {
            return Err(ParseError::Expected(TokenEnum::RBRACE));
        }
        Ok(Class { name: classname, declarations })
    }

    pub fn instance(&mut self) -> (r: Result<Instance, ParseError>)
        requires
            old(self).wf(),
        ensures
            final(self).wf(),
            match instance(old(self)@) {
                Ok((i, m)) => r.is_ok() && r.unwrap()@ == i && final(self)@ == m && follows(
                    m,
                    old(self)@,
                ),
                Err(e) => r.is_err() && r.unwrap_err() == e,
            },
    {
        match self.require_next(TokenEnum::INSTANCE) {
            Ok(_) => {},
            Err(e) => {
                return Err(e);
            },
        }
        let classname = match self.require_name() {
            Ok(name) => name,
            Err(e) => {
                return Err(e);
            },
        };
        let typ = match self.parse_type() {
            Ok(Type::TypeOperator(op)) => {
                proof {
                    lemma_operator_view(op);
                }
                op
            },
            Ok(Type::TypeVariable(_)) => {
                return Err(ParseError::ExpectedTypeOperator);
            },
            Err(e) => {
                return Err(e);
            },
        };
        match self.require_block() {
            Ok(()) => {},
            Err(e) => {
                return Err(e);
            },
        }
        let bindings = match self.bindings_sep() {
            Ok(bindings) => bindings,
            Err(e) => {
                return Err(e);
            },
        };
        if self.kind() != TokenEnum::RBRACE {
            return Err(ParseError::Expected(TokenEnum::RBRACE));
        }
        let bindings = rename_bindings(bindings, typ.name.as_str());
        Ok(Instance { typ, classname, bindings })
    }

    /// The argument types of a constructor of a data type with the
    /// parameters `vars`.
    fn constructor_arguments(&mut self, vars: &mut TypeVariables) -> (r: Result<Vec<Type>, ParseError>)
        requires
            old(self).wf(),
        ensures
            final(self).wf(),
            match constructor_arguments(old(self)@, old(vars)@, Seq::empty()) {
                Ok(((args, v), m)) => r.is_ok() && types_view(r.unwrap()@) == args && final(self)@
                    == m && m.input == old(self)@.input && m.valid() && final(vars)@ == v
                    && m.potential() + crate::layout::cost(m.current().kind) <= old(self)@.potential(),
                Err(e) => r.is_err() && r.unwrap_err() == e,
            },
    {
        let mut arguments: Vec<Type> = Vec::new();
        assert(types_view(arguments@) =~= Seq::empty());
        loop
            invariant
                self.wf(),
                old(self).wf(),
                follows(self@, old(self)@),
                constructor_arguments(old(self)@, old(vars)@, Seq::empty()) == constructor_arguments(
                    self@,
                    vars@,
                    types_view(arguments@),
                ),
            decreases self@.potential(),
        {
            let ghost acc = types_view(arguments@);
            let kind = match self.step(ParseContext::Constructor) {
                Ok(kind) => kind,
                Err(e) => {
                    return Err(e);
                },
            };
            if !kind_starts_type(kind) {
                return Ok(arguments);
            }
            let t = match self.type_atom(vars, true, false) {
                Ok(t) => t,
                Err(e) => {
                    return Err(e);
                },
            };
            arguments.push(t);
            assert(types_view(arguments@) =~= acc.push(t@));
        }
    }

    /// A constructor of the data type `result` with the parameters `vars`.
    pub fn constructor(&mut self, vars: &mut TypeVariables, result: &Type) -> (r: Result<Constructor, ParseError>)
        requires
            old(self).wf(),
        ensures
            final(self).wf(),
            match constructor(old(self)@, old(vars)@, result@) {
                Ok(((c, v), m)) => r.is_ok() && r.unwrap()@ == c && final(vars)@ == v && final(self)@ == m && follows(m, old(self)@),
                Err(e) => r.is_err() && r.unwrap_err() == e,
            },
    {
        let name = match self.require_name() {
            Ok(name) => name,
            Err(e) => {
                return Err(e);
            },
        };
        let arguments = match self.constructor_arguments(vars) {
            Ok(arguments) => arguments,
            Err(e) => {
                return Err(e);
            },
        };
        let arity = arguments.len();
        let typ = make_function_chain(arguments, result.clone());
        self.back();
        Ok(Constructor { name, typ, tag: 0, arity })
    }

    /// Constructors between `|`, at least one.
    fn constructors_sep(&mut self, vars: &mut TypeVariables, result: &Type) -> (r: Result<Vec<Constructor>, ParseError>)
        requires
            old(self).wf(),
        ensures
            final(self).wf(),
            match constructors_sep(old(self)@, old(vars)@, result@, Seq::empty()) {
                Ok((cs, m)) => r.is_ok() && constructors_view(r.unwrap()@) == cs && final(self)@ == m
                    && follows(m, old(self)@) && m.valid() && m.potential() + crate::layout::cost(
                    m.current().kind,
                ) <= old(self)@.potential(),
                Err(e) => r.is_err() && r.unwrap_err() == e,
            },
    {
        let mut constructors: Vec<Constructor> = Vec::new();
        assert(constructors_view(constructors@) =~= Seq::empty());
        loop
            invariant
                self.wf(),
                old(self).wf(),
                follows(self@, old(self)@),
                constructors_sep(old(self)@, old(vars)@, result@, Seq::empty()) == constructors_sep(
                    self@,
                    vars@,
                    result@,
                    constructors_view(constructors@),
                ),
            decreases self@.potential(),
        {
            let ghost acc = constructors_view(constructors@);
            let c = match self.constructor(vars, result) {
                Ok(c) => c,
                Err(e) => {
                    return Err(e);
                },
            };
            let tagged = Constructor { name: c.name, typ: c.typ, tag: constructors.len(), arity: c.arity };
            constructors.push(tagged);
            assert(constructors_view(constructors@) =~= acc.push(tagged@));
            let kind = match self.step(ParseContext::Anything) {
                Ok(kind) => kind,
                Err(e) => {
                    return Err(e);
                },
            };
            if !(kind == TokenEnum::OPERATOR && *self.lexer.current().value.as_str() == *"|") {
                return Ok(constructors);
            }
        }
    }

    pub fn data_definition(&mut self) -> (r: Result<DataDefinition, ParseError>)
        requires
            old(self).wf(),
        ensures
            final(self).wf(),
            match data_definition(old(self)@) {
                Ok((d, m)) => r.is_ok() && r.unwrap()@ == d && final(self)@ == m && follows(
                    m,
                    old(self)@,
                ),
                Err(e) => r.is_err() && r.unwrap_err() == e,
            },
    {
        match self.require_next(TokenEnum::DATA) {
            Ok(_) => {},
            Err(e) => {
                return Err(e);
            },
        }
        let data_name = match self.require_name() {
            Ok(name) => name,
            Err(e) => {
                return Err(e);
            },
        };
        let mut types: Vec<Type> = Vec::new();
        let mut vars = TypeVariables::new();
        assert(types_view(types@) =~= fresh_variables(0));
        loop
            invariant_except_break
                data_definition(old(self)@) == data_body(
                    data_parameters(self@, vars@, types@.len() as nat),
                    data_name@,
                ),
            invariant
                self.wf(),
                old(self).wf(),
                follows(self@, old(self)@),
                types_view(types@) == fresh_variables(types@.len() as nat),
            ensures
                self@.valid(),
                data_definition(old(self)@) == data_body(
                    Ok::<((VarMapV, nat), LexerView), ParseError>(
                        ((vars@, types@.len() as nat), self@),
                    ),
                    data_name@,
                ),
            decreases self@.potential(),
        {
            let kind = match self.step(ParseContext::Anything) {
                Ok(kind) => kind,
                Err(e) => {
                    return Err(e);
                },
            };
            if kind != TokenEnum::NAME {
                break ;
            }
            let ghost before = types_view(types@);
            let variable = Type::new_var(-1);
            types.push(variable);
            assert(types_view(types@) =~= before.push(variable@));
            assert(before.push(TypeV::Variable(-1)) =~= fresh_variables(types@.len() as nat));
            vars.find_or_insert(self.lexeme(), TypeVariable { id: -1 }, false);
        }
        if self.kind() != TokenEnum::EQUALSSIGN {
            return Err(ParseError::Expected(TokenEnum::EQUALSSIGN));
        }
        let mut parameters: Vec<(String, Type)> = Vec::new();
        let mut i: usize = 0;
        while i < vars.entries.len()
            invariant
                i <= vars.entries.len(),
                parameters@.len() == i,
                forall|j: int|
                    0 <= j < i ==> (#[trigger] parameters@[j]).0@ == vars@[j].0 && parameters@[j].1@
                        == TypeV::Variable(vars@[j].1),
            decreases vars.entries.len() - i,
        {
            let name = vars.entries[i].0.clone();
            let variable = Type::TypeVariable(vars.entries[i].1);
            parameters.push((name, variable));
            i += 1;
        }
        assert(parameters_view(parameters@) =~= as_parameters(vars@));
        let typ = TypeOperator { name: data_name, types };
        let result = Type::TypeOperator(typ.clone());
        proof {
            lemma_operator_view(result->TypeOperator_0);
        }
        let constructors = match self.constructors_sep(&mut vars, &result) {
            Ok(constructors) => constructors,
            Err(e) => {
                return Err(e);
            },
        };
        self.back();
        Ok(DataDefinition { constructors, typ, parameters })
    }
}

/// The module of the name `name` with the declarations read so far.
pub open spec fn module_view(
    name: Seq<char>,
    bindings: Seq<Binding>,
    type_declarations: Seq<TypeDeclaration>,
    classes: Seq<Class>,
    instances: Seq<Instance>,
    data_definitions: Seq<DataDefinition>,
) -> ModuleV {
    ModuleV {
        name,
        bindings: bindings_view(bindings),
        type_declarations: type_declarations_view(type_declarations),
        classes: classes_view(classes),
        instances: instances_view(instances),
        data_definitions: data_definitions_view(data_definitions),
    }
}

impl Parser {
    /// A whole module, up to the end of the input.
    pub fn module(&mut self) -> (r: Result<Module, ParseError>)
        requires
            old(self).wf(),
        ensures
            final(self).wf(),
            match module(old(self)@) {
                Ok((v, m)) => r.is_ok() && r.unwrap()@ == v && final(self)@ == m,
                Err(e) => r.is_err() && r.unwrap_err() == e,
            },
    {
        let l_bracket_or_module = match self.step(ParseContext::Anything) {
            Ok(kind) => kind,
            Err(e) => {
                return Err(e);
            },
        };
        let modulename = match l_bracket_or_module {
            TokenEnum::MODULE => {
                let modulename = match self.require_name() {
                    Ok(name) => name,
                    Err(e) => {
                        return Err(e);
                    },
                };
                match self.require_block() {
                    Ok(()) => {},
                    Err(e) => {
                        return Err(e);
                    },
                }
                modulename
            },
            TokenEnum::LBRACE => "Main".to_owned(),
            _ => {
                return Err(ParseError::Expected(TokenEnum::LBRACE));
            },
        };
        let mut classes: Vec<Class> = Vec::new();
        let mut bindings: Vec<Binding> = Vec::new();
        let mut instances: Vec<Instance> = Vec::new();
        let mut type_declarations: Vec<TypeDeclaration> = Vec::new();
        let mut data_definitions: Vec<DataDefinition> = Vec::new();
        proof {
            assert(bindings_view(bindings@) =~= Seq::empty());
            assert(type_declarations_view(type_declarations@) =~= Seq::empty());
            assert(classes_view(classes@) =~= Seq::empty());
            assert(instances_view(instances@) =~= Seq::empty());
            assert(data_definitions_view(data_definitions@) =~= Seq::empty());
        }
        loop
            invariant_except_break
                module(old(self)@) == top_level(
                    self@,
                    module_view(
                        modulename@,
                        bindings@,
                        type_declarations@,
                        classes@,
                        instances@,
                        data_definitions@,
                    ),
                ),
            invariant
                self.wf(),
                old(self).wf(),
            ensures
                self@.valid(),
                module(old(self)@) == module_end(
                    self@,
                    module_view(
                        modulename@,
                        bindings@,
                        type_declarations@,
                        classes@,
                        instances@,
                        data_definitions@,
                    ),
                ),
            decreases self@.potential(),
        {
            let ghost m = self@;
            let ghost acc = module_view(
                modulename@,
                bindings@,
                type_declarations@,
                classes@,
                instances@,
                data_definitions@,
            );
            let token = match self.step(ParseContext::TopLevel) {
                Ok(kind) => kind,
                Err(e) => {
                    return Err(e);
                },
            };
            let ghost m1 = self@;
            proof {
                lemma_backtrack(m1);
            }
            if token == TokenEnum::NAME || token == TokenEnum::LPARENS {
                let is_declaration = match self.lookahead() {
                    Ok(is_declaration) => is_declaration,
                    Err(e) => {
                        return Err(e);
                    },
                };
                assert(follows(self@, m));
                if is_declaration {
                    let bind = match self.type_declaration() {
                        Ok(bind) => bind,
                        Err(e) => {
                            return Err(e);
                        },
                    };
                    type_declarations.push(bind);
                    assert(type_declarations_view(type_declarations@) =~= acc.type_declarations.push(
                        bind@,
                    ));
                } else {
                    let bind = match self.binding() {
                        Ok(bind) => bind,
                        Err(e) => {
                            return Err(e);
                        },
                    };
                    bindings.push(bind);
                    assert(bindings_view(bindings@) =~= acc.bindings.push(bind@));
                }
            } else if token == TokenEnum::CLASS {
                self.back();
                let class = match self.class() {
                    Ok(class) => class,
                    Err(e) => {
                        return Err(e);
                    },
                };
                classes.push(class);
                assert(classes_view(classes@) =~= acc.classes.push(class@));
            } else if token == TokenEnum::INSTANCE {
                self.back();
                let instance = match self.instance() {
                    Ok(instance) => instance,
                    Err(e) => {
                        return Err(e);
                    },
                };
                instances.push(instance);
                assert(instances_view(instances@) =~= acc.instances.push(instance@));
            } else if token == TokenEnum::DATA {
                self.back();
                let definition = match self.data_definition() {
                    Ok(definition) => definition,
                    Err(e) => {
                        return Err(e);
                    },
                };
                data_definitions.push(definition);
                assert(data_definitions_view(data_definitions@) =~= acc.data_definitions.push(
                    definition@,
                ));
            } else {
                break ;
            }
            assert(module(old(self)@) == separator(
                self@,
                module_view(
                    modulename@,
                    bindings@,
                    type_declarations@,
                    classes@,
                    instances@,
                    data_definitions@,
                ),
            ));
            let semicolon = match self.step(ParseContext::TopLevelNewBind) {
                Ok(kind) => kind,
                Err(e) => {
                    return Err(e);
                },
            };
            if semicolon != TokenEnum::SEMICOLON {
                break ;
            }
        }
        if self.kind() != TokenEnum::RBRACE {
            return Err(ParseError::Expected(TokenEnum::RBRACE));
        }
        let eof = match self.step(ParseContext::Anything) {
            Ok(kind) => kind,
            Err(e) => {
                return Err(e);
            },
        };
        if eof != TokenEnum::EOF {
            return Err(ParseError::UnexpectedAfterModule(eof));
        }
        let bindings = attach_declarations(bindings, &type_declarations);
        Ok(
            Module {
                name: modulename,
                bindings,
                type_declarations,
                classes,
                instances,
                data_definitions,
            },
        )
    }
}

/// Parses the module that `input` holds.
pub fn parse_module(input: Vec<char>) -> (r: Result<Module, ParseError>)
    ensures
        match module(LexerView::initial(input@)) {
            Ok((v, _)) => r.is_ok() && r.unwrap()@ == v,
            Err(e) => r.is_err() && r.unwrap_err() == e,
        },
{
    let mut parser = Parser::new(input);
    parser.module()
}

} // verus!
