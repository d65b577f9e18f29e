use offside::ast::{
    apply, function_type, identifier, lambda, number, Expr, Pattern, Type, TypeOperator,
    TypeVariable, Typed,
};
use offside::decl::{Binding, Module, TypeDeclaration};
use offside::error::ParseError;
use offside::parser::Parser;
use offside::parser_decl::{attach_declarations, parse_module};
use offside::sugar::{create_type_constraints, encode_binding_identifier, tuple_type};
use offside::token::TokenEnum;
use offside::varmap::TypeVariables;

fn parser(source: &str) -> Parser {
    Parser::new(source.chars().collect())
}

fn module(source: &str) -> Result<Module, ParseError> {
    parse_module(source.chars().collect())
}

fn name(s: &str) -> Typed<Expr> {
    identifier(s.to_string())
}

fn op(name: &str, types: Vec<Type>) -> Type {
    Type::new_op(name.to_string(), types)
}

fn var(id: isize) -> Type {
    Type::new_var(id)
}

fn as_type(op: &TypeOperator) -> Type {
    Type::TypeOperator(op.clone())
}

#[test]
fn data_definition_maybe() {
    let definition = parser("data Maybe a = Nothing | Just a").data_definition().unwrap();
    assert_eq!(definition.typ.name, "Maybe");
    assert_eq!(as_type(&definition.typ), op("Maybe", vec![var(-1)]));
    assert_eq!(definition.constructors.len(), 2);
    assert_eq!(definition.constructors[0].name, "Nothing");
    assert_eq!(definition.constructors[0].tag, 0);
    assert_eq!(definition.constructors[0].arity, 0);
    assert_eq!(definition.constructors[0].typ, op("Maybe", vec![var(-1)]));
    assert_eq!(definition.constructors[1].name, "Just");
    assert_eq!(definition.constructors[1].tag, 1);
    assert_eq!(definition.constructors[1].arity, 1);
    assert_eq!(
        definition.constructors[1].typ,
        function_type(&var(-1), &op("Maybe", vec![var(-1)]))
    );
    assert_eq!(definition.parameters.len(), 1);
    assert_eq!(definition.parameters[0].0, "a");
    assert_eq!(definition.parameters[0].1, var(-1));
}

#[test]
fn data_definition_with_compound_arguments() {
    let definition =
        parser("data Tree a b = Leaf | Node [a] (Tree a b) Int b").data_definition().unwrap();
    let tree = op("Tree", vec![var(-1), var(-1)]);
    assert_eq!(definition.constructors[1].arity, 4);
    assert_eq!(definition.constructors[1].tag, 1);
    let expected = function_type(
        &op("[]", vec![var(-1)]),
        &function_type(
            &tree,
            &function_type(&op("Int", vec![]), &function_type(&var(-1), &tree)),
        ),
    );
    assert_eq!(definition.constructors[1].typ, expected);
    assert_eq!(definition.parameters.len(), 2);
    assert_eq!(definition.parameters[1].0, "b");
}

#[test]
fn data_definition_errors() {
    assert_eq!(
        parser("data T a = C b").data_definition().unwrap_err(),
        ParseError::UndefinedTypeParameter
    );
    assert_eq!(
        parser("data T a C").data_definition().unwrap_err(),
        ParseError::Expected(TokenEnum::EQUALSSIGN)
    );
    assert_eq!(
        parser("data = C").data_definition().unwrap_err(),
        ParseError::Expected(TokenEnum::NAME)
    );
    assert_eq!(
        parser("x = 1").data_definition().unwrap_err(),
        ParseError::Expected(TokenEnum::DATA)
    );
}

#[test]
fn types() {
    assert_eq!(parser("Int").parse_type().unwrap(), op("Int", vec![]));
    assert_eq!(parser("a").parse_type().unwrap(), var(-1));
    assert_eq!(
        parser("a -> b -> Bool").parse_type().unwrap(),
        function_type(&var(-1), &function_type(&var(-1), &op("Bool", vec![])))
    );
    assert_eq!(
        parser("Maybe Int -> [a]").parse_type().unwrap(),
        function_type(&op("Maybe", vec![op("Int", vec![])]), &op("[]", vec![var(-1)]))
    );
    assert_eq!(
        parser("(Int, a)").parse_type().unwrap(),
        op("(,)", vec![op("Int", vec![]), var(-1)])
    );
    assert_eq!(
        parser("(a -> b) -> [a]").parse_type().unwrap(),
        function_type(&function_type(&var(-1), &var(-1)), &op("[]", vec![var(-1)]))
    );
    assert_eq!(
        parser("Either (Maybe a) [b]").parse_type().unwrap(),
        op("Either", vec![op("Maybe", vec![var(-1)]), op("[]", vec![var(-1)])])
    );
}

#[test]
fn type_errors() {
    assert_eq!(parser("= a").parse_type().unwrap_err(), ParseError::Expected(TokenEnum::NAME));
    assert_eq!(
        parser("[a").parse_type().unwrap_err(),
        ParseError::Expected(TokenEnum::RBRACKET)
    );
    assert_eq!(
        parser("(a, b").parse_type().unwrap_err(),
        ParseError::Expected(TokenEnum::RPARENS)
    );
}

#[test]
fn type_variables_are_shared_within_a_declaration() {
    let mut vars = TypeVariables::new();
    assert_eq!(
        vars.find_or_insert("a".to_string(), TypeVariable { id: 7 }, false),
        Some(TypeVariable { id: 7 })
    );
    assert_eq!(
        vars.find_or_insert("a".to_string(), TypeVariable { id: 8 }, false),
        Some(TypeVariable { id: 7 })
    );
    assert_eq!(vars.find_or_insert("b".to_string(), TypeVariable { id: 8 }, true), None);
    assert_eq!(vars.find("b"), None);
    let mut parser = parser("a -> b -> a");
    let typ = parser.parse_type_(&mut vars, false).unwrap();
    assert_eq!(
        typ,
        function_type(&var(7), &function_type(&var(-1), &var(7)))
    );
    assert_eq!(vars.entries.len(), 2);
    assert_eq!(vars.entries[1].0, "b");
}

#[test]
fn type_declaration_plain() {
    let decl = parser("id :: a -> a").type_declaration().unwrap();
    assert_eq!(decl.name, "id");
    assert!(decl.context.is_empty());
    assert_eq!(decl.typ, function_type(&var(-1), &var(-1)));
    let decl = parser("(+) :: Int -> Int -> Int").type_declaration().unwrap();
    assert_eq!(decl.name, "+");
}

#[test]
fn type_declaration_with_context() {
    let decl = parser("eq :: Eq a => a -> a -> Bool").type_declaration().unwrap();
    assert_eq!(decl.name, "eq");
    assert_eq!(decl.context.len(), 1);
    assert_eq!(as_type(&decl.context[0]), op("Eq", vec![var(-1)]));
    assert_eq!(
        decl.typ,
        function_type(&var(-1), &function_type(&var(-1), &op("Bool", vec![])))
    );
    let decl = parser("f :: (Eq a, Show b) => a -> b").type_declaration().unwrap();
    assert_eq!(decl.context.len(), 2);
    assert_eq!(decl.context[1].name, "Show");
}

#[test]
fn type_declaration_errors() {
    assert_eq!(
        parser("f = 1").type_declaration().unwrap_err(),
        ParseError::Expected(TokenEnum::TYPEDECL)
    );
    assert_eq!(
        parser("f :: a => a").type_declaration().unwrap_err(),
        ParseError::ExpectedTypeContext
    );
    assert_eq!(
        parser("f :: (Eq a, b) => a").type_declaration().unwrap_err(),
        ParseError::ExpectedConstraint
    );
}

#[test]
fn constraints_of_a_context() {
    let single = TypeOperator { name: "Eq".to_string(), types: vec![var(1)] };
    let constraints = create_type_constraints(single).unwrap();
    assert_eq!(constraints.len(), 1);
    assert_eq!(constraints[0].name, "Eq");
    let tuple = match tuple_type(vec![op("Eq", vec![var(1)]), op("Ord", vec![var(2)])]) {
        Type::TypeOperator(op) => op,
        Type::TypeVariable(_) => panic!("a tuple type is an operator"),
    };
    let constraints = create_type_constraints(tuple).unwrap();
    assert_eq!(constraints.len(), 2);
    assert_eq!(as_type(&constraints[1]), op("Ord", vec![var(2)]));
}

#[test]
fn patterns() {
    assert_eq!(
        parser("Just x").pattern().unwrap(),
        Pattern::ConstructorPattern(
            "Just".to_string(),
            vec![Pattern::IdentifierPattern("x".to_string())]
        )
    );
    assert_eq!(parser("x").pattern().unwrap(), Pattern::IdentifierPattern("x".to_string()));
    assert_eq!(parser("42").pattern().unwrap(), Pattern::NumberPattern(42));
    assert_eq!(
        parser("[]").pattern().unwrap(),
        Pattern::ConstructorPattern("[]".to_string(), vec![])
    );
    assert_eq!(
        parser("(a, 1)").pattern().unwrap(),
        Pattern::ConstructorPattern(
            "(,)".to_string(),
            vec![Pattern::IdentifierPattern("a".to_string()), Pattern::NumberPattern(1)]
        )
    );
    assert_eq!(
        parser(": x xs").pattern().unwrap(),
        Pattern::ConstructorPattern(
            ":".to_string(),
            vec![
                Pattern::IdentifierPattern("x".to_string()),
                Pattern::IdentifierPattern("xs".to_string())
            ]
        )
    );
    assert_eq!(
        parser("Pair (Just a) (b, c) 0").pattern().unwrap(),
        Pattern::ConstructorPattern(
            "Pair".to_string(),
            vec![
                Pattern::ConstructorPattern(
                    "Just".to_string(),
                    vec![Pattern::IdentifierPattern("a".to_string())]
                ),
                Pattern::ConstructorPattern(
                    "(,)".to_string(),
                    vec![
                        Pattern::IdentifierPattern("b".to_string()),
                        Pattern::IdentifierPattern("c".to_string())
                    ]
                ),
                Pattern::NumberPattern(0),
            ]
        )
    );
}

#[test]
fn pattern_errors() {
    assert_eq!(parser("x y").pattern().unwrap_err(), ParseError::InvalidPattern);
    assert_eq!(parser("= y").pattern().unwrap_err(), ParseError::InvalidPattern);
    assert_eq!(
        parser("[x]").pattern().unwrap_err(),
        ParseError::Expected(TokenEnum::RBRACKET)
    );
    assert_eq!(
        parser("(a, b").pattern().unwrap_err(),
        ParseError::Expected(TokenEnum::RPARENS)
    );
}

#[test]
fn alternative_is_pattern_arrow_expression() {
    let alternative = parser("Just x -> f x").alternative().unwrap();
    assert_eq!(
        alternative.pattern,
        Pattern::ConstructorPattern(
            "Just".to_string(),
            vec![Pattern::IdentifierPattern("x".to_string())]
        )
    );
    assert_eq!(alternative.expression, apply(name("f"), name("x")));
    assert_eq!(
        parser("Just x = 1").alternative().unwrap_err(),
        ParseError::Expected(TokenEnum::ARROW)
    );
}

#[test]
fn class_declaration() {
    let class = parser("class Eq a where\n  eq :: a -> a -> Bool\n  neq :: a -> b\n")
        .class()
        .unwrap();
    assert_eq!(class.name, "Eq");
    assert_eq!(class.declarations.len(), 2);
    assert_eq!(class.declarations[0].name, "eq");
    assert_eq!(
        class.declarations[0].typ,
        function_type(&var(100), &function_type(&var(100), &op("Bool", vec![])))
    );
    assert_eq!(class.declarations[1].typ, function_type(&var(100), &var(-1)));
}

#[test]
fn instance_declaration() {
    let instance = parser("instance Eq Int where\n  eq x y = primEq x y\n  neq = f\n")
        .instance()
        .unwrap();
    assert_eq!(instance.classname, "Eq");
    assert_eq!(instance.typ.name, "Int");
    assert_eq!(instance.bindings.len(), 2);
    assert_eq!(instance.bindings[0].name, "#Inteq");
    assert_eq!(instance.bindings[1].name, "#Intneq");
    assert_eq!(
        instance.bindings[0].expression,
        lambda(
            "x".to_string(),
            lambda("y".to_string(), apply(apply(name("primEq"), name("x")), name("y")))
        )
    );
    assert_eq!(encode_binding_identifier("Int", "eq"), "#Inteq");
    assert_eq!(
        parser("instance Eq a where\n  eq = f\n").instance().unwrap_err(),
        ParseError::ExpectedTypeOperator
    );
}

#[test]
fn module_with_header() {
    let module = module("module Test where\nx = 1\ny :: Int\ny = 2\nf a = g a x\n").unwrap();
    assert_eq!(module.name, "Test");
    assert_eq!(module.bindings.len(), 3);
    assert_eq!(module.type_declarations.len(), 1);
    assert_eq!(module.bindings[0].name, "x");
    assert_eq!(module.bindings[0].expression, number(1));
    assert_eq!(module.bindings[0].type_decl.name, "");
    assert_eq!(module.bindings[0].type_decl.typ, var(-1));
    assert_eq!(module.bindings[1].name, "y");
    assert_eq!(module.bindings[1].type_decl.name, "y");
    assert_eq!(module.bindings[1].type_decl.typ, op("Int", vec![]));
    assert_eq!(
        module.bindings[2].expression,
        lambda("a".to_string(), apply(apply(name("g"), name("a")), name("x")))
    );
}

#[test]
fn module_in_braces_is_main() {
    let module = module("{ x = 1; y = x }").unwrap();
    assert_eq!(module.name, "Main");
    assert_eq!(module.bindings.len(), 2);
    assert_eq!(module.bindings[1].expression, name("x"));
}

#[test]
fn module_with_every_kind_of_declaration() {
    let source = "module M where\n\
data Maybe a = Nothing | Just a\n\
class Eq a where\n  eq :: a -> a -> Bool\n\
instance Eq Int where\n  eq x y = primEq x y\n\
(==) :: Eq a => a -> a -> Bool\n\
(==) x y = eq x y\n\
main = let\n    one = 1\n  in one == 1\n";
    let module = module(source).unwrap();
    assert_eq!(module.name, "M");
    assert_eq!(module.data_definitions.len(), 1);
    assert_eq!(module.classes.len(), 1);
    assert_eq!(module.instances.len(), 1);
    assert_eq!(module.type_declarations.len(), 1);
    assert_eq!(module.bindings.len(), 2);
    assert_eq!(module.bindings[0].name, "==");
    assert_eq!(module.bindings[0].type_decl.name, "==");
    assert_eq!(module.bindings[0].type_decl.context.len(), 1);
    assert_eq!(module.bindings[1].name, "main");
    assert_eq!(module.data_definitions[0].constructors[1].tag, 1);
}

#[test]
fn module_errors() {
    assert_eq!(module("x = 1").unwrap_err(), ParseError::Expected(TokenEnum::LBRACE));
    assert_eq!(
        module("{ x = 1 } y").unwrap_err(),
        ParseError::UnexpectedAfterModule(TokenEnum::NAME)
    );
    assert_eq!(module("{ x = 1").unwrap_err(), ParseError::Expected(TokenEnum::RBRACE));
    assert_eq!(module("module where").unwrap_err(), ParseError::Expected(TokenEnum::NAME));
    assert_eq!(module("module M {").unwrap_err(), ParseError::Expected(TokenEnum::WHERE));
    assert_eq!(module("{ x = 1 }}").unwrap_err(), ParseError::UnmatchedBrace);
    assert_eq!(module("{ x 1 }").unwrap_err(), ParseError::Expected(TokenEnum::EQUALSSIGN));
}

#[test]
fn declaration_head_longer_than_buffer() {
    let params = "a ".repeat(16);
    assert!(module(&format!("{{ f {}= 1 }}", params)).is_ok());
    let params = "a ".repeat(30);
    assert_eq!(
        module(&format!("{{ f {}= 1 }}", params)).unwrap_err(),
        ParseError::LookaheadTooDeep
    );
}

#[test]
fn last_declaration_of_a_name_wins() {
    let declaration = |typ: Type| TypeDeclaration {
        context: vec![],
        typ,
        name: "x".to_string(),
    };
    let binding = |name: &str| Binding {
        name: name.to_string(),
        expression: number(1),
        type_decl: TypeDeclaration::undeclared(),
    };
    let attached = attach_declarations(
        vec![binding("x"), binding("y")],
        &vec![declaration(op("Int", vec![])), declaration(op("Bool", vec![]))],
    );
    assert_eq!(attached[0].type_decl.typ, op("Bool", vec![]));
    assert_eq!(attached[0].type_decl.name, "x");
    assert_eq!(attached[1].type_decl.typ, var(-1));
    assert_eq!(attached[1].type_decl.name, "");
}
