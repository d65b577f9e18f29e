use offside::ast::{
    apply, case_, identifier, lambda, let_, number, Alternative, Expr, Pattern, Typed,
};
use offside::error::{parse_error, ParseError};
use offside::parser::Parser;
use offside::sugar::{make_application, make_lambda, new_tuple, precedence, tuple_name};
use offside::token::TokenEnum;

fn parser(source: &str) -> Parser {
    Parser::new(source.chars().collect())
}

fn parse(source: &str) -> Typed<Expr> {
    parser(source).expression_().unwrap()
}

fn name(s: &str) -> Typed<Expr> {
    identifier(s.to_string())
}

fn binary(op: &str, l: Typed<Expr>, r: Typed<Expr>) -> Typed<Expr> {
    apply(apply(name(op), l), r)
}

#[test]
fn parser_simple() {
    let mut parser = parser("2 + 3");
    let expr = parser.expression_().unwrap();
    assert_eq!(expr, apply(apply(identifier("+".to_string()), number(2)), number(3)));
}

#[test]
fn list_desugars_to_cons() {
    let expected = binary(
        ":",
        number(1),
        binary(":", number(2), binary(":", number(3), name("[]"))),
    );
    assert_eq!(parse("[1, 2, 3]"), expected);
}

#[test]
fn empty_list_is_nil() {
    assert_eq!(parse("[]"), name("[]"));
    assert_eq!(parse("f [] x"), apply(apply(name("f"), name("[]")), name("x")));
}

#[test]
fn list_needs_closing_bracket() {
    assert_eq!(
        parser("[1, 2").expression_().unwrap_err(),
        ParseError::Expected(TokenEnum::RBRACKET)
    );
    assert_eq!(
        parser("[1,]").expression_().unwrap_err(),
        ParseError::Expected(TokenEnum::RBRACKET)
    );
}

#[test]
fn left_section_is_lambda_over_hash() {
    let expected = lambda("#".to_string(), binary("+", name("#"), number(1)));
    assert_eq!(parse("(+ 1)"), expected);
}

#[test]
fn right_section_is_lambda_over_hash() {
    let expected = lambda("#".to_string(), binary("+", number(1), name("#")));
    assert_eq!(parse("(1 +)"), expected);
}

#[test]
fn leading_minus_is_negate() {
    assert_eq!(parse("(- 1)"), apply(name("negate"), number(1)));
    assert_eq!(parse("- x"), apply(name("negate"), name("x")));
}

#[test]
fn stronger_operator_binds_right_operand() {
    assert_eq!(
        parse("a + b * c"),
        binary("+", name("a"), binary("*", name("b"), name("c")))
    );
    assert_eq!(
        parse("a * b + c"),
        binary("+", binary("*", name("a"), name("b")), name("c"))
    );
    assert_eq!(
        parse("a + b * c . d"),
        binary("+", name("a"), binary("*", name("b"), binary(".", name("c"), name("d"))))
    );
    assert_eq!(
        parse("a + b * c - d"),
        binary("-", binary("+", name("a"), binary("*", name("b"), name("c"))), name("d"))
    );
}

#[test]
fn equal_precedence_groups_left() {
    assert_eq!(
        parse("a - b + c"),
        binary("+", binary("-", name("a"), name("b")), name("c"))
    );
}

#[test]
fn application_binds_tighter_than_operators() {
    assert_eq!(
        parse("f x + g y z"),
        binary(
            "+",
            apply(name("f"), name("x")),
            apply(apply(name("g"), name("y")), name("z"))
        )
    );
}

#[test]
fn parentheses_group() {
    assert_eq!(
        parse("(a + b) * c"),
        binary("*", binary("+", name("a"), name("b")), name("c"))
    );
    assert_eq!(parse("(x)"), name("x"));
}

#[test]
fn tuple_applies_comma_constructor() {
    assert_eq!(parse("(1, x)"), apply(apply(name("(,)"), number(1)), name("x")));
    assert_eq!(
        parse("(1, 2, 3)"),
        apply(apply(apply(name("(,,)"), number(1)), number(2)), number(3))
    );
}

#[test]
fn missing_close_parenthesis() {
    assert_eq!(
        parser("(1, 2").expression_().unwrap_err(),
        ParseError::Expected(TokenEnum::RPARENS)
    );
}

#[test]
fn let_with_layout() {
    let expected = let_(
        vec![("test".to_string(), binary("+", number(2), number(3)))],
        name("test"),
    );
    assert_eq!(parse("let\n    test = 2 + 3\nin test"), expected);
    assert_eq!(parse("let test = 2 + 3 in test"), expected);
    assert_eq!(parse("let { test = 2 + 3 } in test"), expected);
}

#[test]
fn let_with_several_bindings() {
    let expected = let_(
        vec![
            ("x".to_string(), number(1)),
            (
                "f".to_string(),
                lambda("a".to_string(), lambda("b".to_string(), binary("+", name("a"), name("b")))),
            ),
        ],
        apply(apply(name("f"), name("x")), name("x")),
    );
    assert_eq!(parse("let\n  x = 1\n  f a b = a + b\nin f x x"), expected);
}

#[test]
fn let_needs_in() {
    assert_eq!(
        parser("let x = 1\nx").expression_().unwrap_err(),
        ParseError::Expected(TokenEnum::IN)
    );
}

#[test]
fn operator_binding_name() {
    let mut parser = parser("(+) a b = a");
    let binding = parser.binding().unwrap();
    assert_eq!(binding.name, "+");
    assert_eq!(
        binding.expression,
        lambda("a".to_string(), lambda("b".to_string(), name("a")))
    );
    assert_eq!(binding.type_decl.name, "");
    assert!(binding.type_decl.context.is_empty());
}

#[test]
fn binding_errors() {
    assert_eq!(parser("1 = 2").binding().unwrap_err(), ParseError::Expected(TokenEnum::NAME));
    assert_eq!(
        parser("x 1 = 2").binding().unwrap_err(),
        ParseError::Expected(TokenEnum::EQUALSSIGN)
    );
    assert_eq!(
        parser("(1) = 2").binding().unwrap_err(),
        ParseError::ExpectedNameOrOperator(TokenEnum::NUMBER)
    );
    assert_eq!(
        parser("(+ = 2").binding().unwrap_err(),
        ParseError::Expected(TokenEnum::RPARENS)
    );
    assert_eq!(parser("x = ").binding().unwrap_err(), ParseError::ExpectedExpression);
}

#[test]
fn no_expression() {
    assert_eq!(parser("").expression_().unwrap_err(), ParseError::ExpectedExpression);
    assert!(parser(")").expression().unwrap().is_none());
    assert_eq!(parser("(+)").expression_().unwrap_err(), ParseError::ExpectedExpression);
}

#[test]
fn number_too_large() {
    assert_eq!(
        parser("123456789012345678901234567890").expression_().unwrap_err(),
        ParseError::NumberTooLarge
    );
    assert_eq!(parse("9223372036854775807"), number(isize::MAX));
}

#[test]
fn stray_brace_is_reported() {
    assert_eq!(parser("f }").expression_().unwrap_err(), ParseError::UnmatchedBrace);
}

#[test]
fn expression_leaves_following_token_unread() {
    let mut parser = parser("a b , c");
    assert_eq!(parser.expression_().unwrap(), apply(name("a"), name("b")));
    assert_eq!(parser.require_next(TokenEnum::COMMA).unwrap().token, TokenEnum::COMMA);
    assert_eq!(parser.expression_().unwrap(), name("c"));
}

#[test]
fn equality_ignores_locations() {
    let a = Typed::with_location(
        Expr::Identifier("x".to_string()),
        offside::token::Location { column: 4, row: 2, absolute: 9 },
    );
    assert_eq!(a, name("x"));
    assert_ne!(a, name("y"));
    assert_ne!(a, number(1));
}

#[test]
fn precedence_table() {
    for op in ["*", "/", "%"] {
        assert_eq!(precedence(op), 3);
    }
    for op in ["+", "-", "==", "/=", "<", ">", "<=", ">="] {
        assert_eq!(precedence(op), 1);
    }
    for op in [".", "$", ":", "&&", "||", ">>="] {
        assert_eq!(precedence(op), 9);
    }
}

#[test]
fn tuple_names() {
    assert_eq!(tuple_name(0), "()");
    assert_eq!(tuple_name(1), "()");
    assert_eq!(tuple_name(2), "(,)");
    assert_eq!(tuple_name(4), "(,,,)");
}

#[test]
fn application_and_lambda_builders() {
    assert_eq!(
        make_application(name("f"), vec![name("a"), name("b")]),
        apply(apply(name("f"), name("a")), name("b"))
    );
    assert_eq!(
        make_lambda(vec!["a".to_string(), "b".to_string()], name("a")),
        lambda("a".to_string(), lambda("b".to_string(), name("a")))
    );
    assert_eq!(
        new_tuple(vec![name("a"), name("b")]),
        apply(apply(name("(,)"), name("a")), name("b"))
    );
}

fn alternative(pattern: Pattern, expression: Typed<Expr>) -> Alternative {
    Alternative { pattern, expression }
}

#[test]
fn case_with_layout() {
    let expected = case_(
        name("x"),
        vec![
            alternative(
                Pattern::ConstructorPattern(
                    "Just".to_string(),
                    vec![Pattern::IdentifierPattern("y".to_string())],
                ),
                binary("+", name("y"), number(1)),
            ),
            alternative(Pattern::ConstructorPattern("Nothing".to_string(), vec![]), number(0)),
        ],
    );
    assert_eq!(parse("case x of\n  Just y -> y + 1\n  Nothing -> 0"), expected);
    assert_eq!(parse("case x of { Just y -> y + 1; Nothing -> 0 }"), expected);
    assert_ne!(parse("case x of { Just y -> y + 1; Nothing -> 1 }"), expected);
    assert_ne!(parse("case x of { Just z -> y + 1; Nothing -> 0 }"), expected);
}

#[test]
fn case_inside_application() {
    let expected = apply(
        name("f"),
        case_(
            number(1),
            vec![alternative(Pattern::NumberPattern(1), name("a"))],
        ),
    );
    assert_eq!(parse("f (case 1 of { 1 -> a })"), expected);
}

#[test]
fn case_errors() {
    assert_eq!(
        parser("case x { y -> 1 }").expression_().unwrap_err(),
        ParseError::Expected(TokenEnum::OF)
    );
    assert_eq!(
        parser("case x of { y = 1 }").expression_().unwrap_err(),
        ParseError::Expected(TokenEnum::ARROW)
    );
    assert_eq!(
        parser("case of { y -> 1 }").expression_().unwrap_err(),
        ParseError::ExpectedExpression
    );
    assert_eq!(
        parser("case x of { y -> 1 ").expression_().unwrap_err(),
        ParseError::Expected(TokenEnum::RBRACE)
    );
}

#[test]
fn messages() {
    assert_eq!(ParseError::Expected(TokenEnum::NAME).message(), "Expected NAME");
    assert_eq!(parse_error(TokenEnum::RBRACE), "Expected RBRACE");
    assert_eq!(
        ParseError::UnexpectedAfterModule(TokenEnum::INDENTSTART).message(),
        "Unexpected token after end of module, INDENTSTART"
    );
    assert_eq!(
        ParseError::ExpectedNameOrOperator(TokenEnum::EQUALSSIGN).message(),
        "Expected NAME or OPERATOR on left side of binding EQUALSSIGN"
    );
    assert_eq!(ParseError::ExpectedExpression.message(), "Failed to parse expression");
    assert_eq!(ParseError::ExpectedTypeOperator.message(), "Expected type operator");
    assert_eq!(
        ParseError::ExpectedTypeContext.message(),
        "Expected type context since '=>' was parsed"
    );
    assert_eq!(
        ParseError::ExpectedConstraint.message(),
        "Expected TypeOperator when creating constraints"
    );
    assert_eq!(ParseError::UndefinedTypeParameter.message(), "Undefined type parameter");
    assert_eq!(ParseError::InvalidPattern.message(), "Error parsing pattern");
    assert_eq!(ParseError::NumberTooLarge.message(), "Number literal is too large");
    assert_eq!(
        ParseError::UnmatchedBrace.message(),
        "Closing brace without an opening brace"
    );
    assert_eq!(ParseError::LookaheadTooDeep.message(), "Too many tokens before '=' or '::'");
    let kinds = [
        (TokenEnum::EOF, "EOF"),
        (TokenEnum::OPERATOR, "OPERATOR"),
        (TokenEnum::NUMBER, "NUMBER"),
        (TokenEnum::FLOAT, "FLOAT"),
        (TokenEnum::LPARENS, "LPARENS"),
        (TokenEnum::RPARENS, "RPARENS"),
        (TokenEnum::LBRACKET, "LBRACKET"),
        (TokenEnum::RBRACKET, "RBRACKET"),
        (TokenEnum::LBRACE, "LBRACE"),
        (TokenEnum::INDENTLEVEL, "INDENTLEVEL"),
        (TokenEnum::COMMA, "COMMA"),
        (TokenEnum::SEMICOLON, "SEMICOLON"),
        (TokenEnum::MODULE, "MODULE"),
        (TokenEnum::CLASS, "CLASS"),
        (TokenEnum::INSTANCE, "INSTANCE"),
        (TokenEnum::WHERE, "WHERE"),
        (TokenEnum::LET, "LET"),
        (TokenEnum::IN, "IN"),
        (TokenEnum::CASE, "CASE"),
        (TokenEnum::OF, "OF"),
        (TokenEnum::ARROW, "ARROW"),
        (TokenEnum::TYPEDECL, "TYPEDECL"),
        (TokenEnum::DATA, "DATA"),
    ];
    for (kind, text) in kinds {
        assert_eq!(kind.name(), text);
    }
}
