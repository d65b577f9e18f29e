use offside::context::{
    application_error, binding_error, constructor_error, error_if_not_identifier,
    error_if_not_name_or_equal, error_if_not_name_or_lparens, error_if_not_name_or_operator,
    error_if_not_rparens, let_expression_end_error, sub_expression_error, toplevel_error,
    toplevel_new_bind_error, type_parse_error, ParseContext,
};
use offside::lexer::name_or_keyword;
use offside::text::is_operator;
use offside::lexer::Lexer;
use offside::token::Token;
use offside::token::TokenEnum::{
    ARROW, COMMA, EOF, EQUALSSIGN, FLOAT, IN, LBRACE, LBRACKET, LET, LPARENS, NAME, NUMBER,
    OPERATOR, RBRACE, RBRACKET, RPARENS, SEMICOLON, TYPEDECL, WHERE, MODULE, CASE, CLASS, DATA,
    INDENTLEVEL, INDENTSTART, INSTANCE, OF,
};
use offside::token::TokenEnum;

fn lexer(source: &str) -> Lexer {
    Lexer::new(source.chars().collect())
}

#[test]
fn lexer_simple() {
    let mut lexer = lexer("test 2 + 3");

    assert_eq!(*lexer.next_().unwrap(), Token::new_(NAME, "test"));
    assert_eq!(*lexer.next_().unwrap(), Token::new_(NUMBER, "2"));
    assert_eq!(*lexer.next_().unwrap(), Token::new_(OPERATOR, "+"));
    assert_eq!(*lexer.next_().unwrap(), Token::new_(NUMBER, "3"));
}

#[test]
fn let_bind() {
    let mut lexer = lexer("let\n    test = 2 + 3\nin test");

    assert_eq!(*lexer.next_().unwrap(), Token::new_(LET, "let"));
    assert_eq!(*lexer.next_().unwrap(), Token::new_(LBRACE, "{"));
    assert_eq!(*lexer.next_().unwrap(), Token::new_(NAME, "test"));
    assert_eq!(*lexer.next_().unwrap(), Token::new_(EQUALSSIGN, "="));
    assert_eq!(*lexer.next_().unwrap(), Token::new_(NUMBER, "2"));
    assert_eq!(*lexer.next_().unwrap(), Token::new_(OPERATOR, "+"));
    assert_eq!(*lexer.next_().unwrap(), Token::new_(NUMBER, "3"));
}

#[test]
fn let_bind_closes_block_before_in() {
    let mut lexer = lexer("let\n    test = 2 + 3\nin test");
    for _ in 0..7 {
        lexer.next_().unwrap();
    }
    assert_eq!(*lexer.next_().unwrap(), Token::new_(RBRACE, "}"));
    assert_eq!(*lexer.next_().unwrap(), Token::new_(IN, "in"));
    assert_eq!(*lexer.next_().unwrap(), Token::new_(NAME, "test"));
    assert_eq!(*lexer.next_().unwrap(), Token::new_(EOF, ""));
}

#[test]
fn locations_count_rows_and_columns() {
    let mut lexer = lexer("a\n  bc\r d");
    let a = lexer.next_().unwrap().location;
    assert_eq!((a.row, a.column, a.absolute), (0, 1, 1));
    let bc = lexer.next_().unwrap().location;
    assert_eq!((bc.row, bc.column, bc.absolute), (1, 3, 5));
    let d = lexer.next_().unwrap().location;
    assert_eq!((d.row, d.column, d.absolute), (2, 2, 9));
}

#[test]
fn operators_and_punctuation() {
    let mut lexer = lexer("a -> b :: = ==> ( ) [ ] , ;");
    let expected = [
        Token::new_(NAME, "a"),
        Token::new_(ARROW, "->"),
        Token::new_(NAME, "b"),
        Token::new_(TYPEDECL, "::"),
        Token::new_(EQUALSSIGN, "="),
        Token::new_(OPERATOR, "==>"),
        Token::new_(LPARENS, "("),
        Token::new_(RPARENS, ")"),
        Token::new_(LBRACKET, "["),
        Token::new_(RBRACKET, "]"),
        Token::new_(COMMA, ","),
        Token::new_(SEMICOLON, ";"),
        Token::new_(EOF, ""),
    ];
    for token in expected.iter() {
        assert_eq!(lexer.next_().unwrap(), token);
    }
}

#[test]
fn float_needs_digits_after_the_point() {
    let mut lexer = lexer("12.5 7.x 10");
    assert_eq!(*lexer.next_().unwrap(), Token::new_(FLOAT, "12.5"));
    assert_eq!(*lexer.next_().unwrap(), Token::new_(NUMBER, "7"));
    assert_eq!(*lexer.next_().unwrap(), Token::new_(OPERATOR, "."));
    assert_eq!(*lexer.next_().unwrap(), Token::new_(NAME, "x"));
    assert_eq!(*lexer.next_().unwrap(), Token::new_(NUMBER, "10"));
}

#[test]
fn name_at_end_of_input() {
    let mut lexer = lexer("x_1");
    assert_eq!(*lexer.next_().unwrap(), Token::new_(NAME, "x_1"));
    assert_eq!(*lexer.next_().unwrap(), Token::new_(EOF, ""));
    assert_eq!(*lexer.next_().unwrap(), Token::new_(EOF, ""));
}

#[test]
fn unknown_character_reads_as_eof() {
    let mut lexer = lexer("a # b");
    assert_eq!(*lexer.next_().unwrap(), Token::new_(NAME, "a"));
    assert_eq!(*lexer.next_().unwrap(), Token::new_(EOF, "#"));
    assert_eq!(*lexer.next_().unwrap(), Token::new_(NAME, "b"));
}

#[test]
fn same_column_gives_semicolon() {
    let mut lexer = lexer("module M where\nx = 1\ny = 2\n");
    let expected = [
        Token::new_(MODULE, "module"),
        Token::new_(NAME, "M"),
        Token::new_(WHERE, "where"),
        Token::new_(LBRACE, "{"),
        Token::new_(NAME, "x"),
        Token::new_(EQUALSSIGN, "="),
        Token::new_(NUMBER, "1"),
        Token::new_(SEMICOLON, ";"),
        Token::new_(NAME, "y"),
        Token::new_(EQUALSSIGN, "="),
        Token::new_(NUMBER, "2"),
        Token::new_(RBRACE, "}"),
        Token::new_(EOF, ""),
    ];
    for token in expected.iter() {
        assert_eq!(lexer.next_().unwrap(), token);
    }
}

#[test]
fn rejected_token_closes_implicit_block() {
    let mut lexer = lexer("let x = 1 in x");
    assert_eq!(*lexer.next_().unwrap(), Token::new_(LET, "let"));
    assert_eq!(*lexer.next_().unwrap(), Token::new_(LBRACE, "{"));
    assert_eq!(*lexer.next_().unwrap(), Token::new_(NAME, "x"));
    assert_eq!(*lexer.next_().unwrap(), Token::new_(EQUALSSIGN, "="));
    assert_eq!(*lexer.next_().unwrap(), Token::new_(NUMBER, "1"));
    assert_eq!(*lexer.next(ParseContext::Application).unwrap(), Token::new_(RBRACE, "}"));
    assert_eq!(*lexer.next(ParseContext::Application).unwrap(), Token::new_(IN, "in"));
    assert_eq!(*lexer.next_().unwrap(), Token::new_(NAME, "x"));
}

#[test]
fn accepted_token_leaves_block_open() {
    let mut lexer = lexer("let x = 1 in x");
    for _ in 0..5 {
        lexer.next_().unwrap();
    }
    assert_eq!(*lexer.next_().unwrap(), Token::new_(IN, "in"));
}

#[test]
fn explicit_braces_are_kept() {
    let mut lexer = lexer("let { x = 1 } in x");
    let expected = [
        Token::new_(LET, "let"),
        Token::new_(LBRACE, "{"),
        Token::new_(NAME, "x"),
        Token::new_(EQUALSSIGN, "="),
        Token::new_(NUMBER, "1"),
        Token::new_(RBRACE, "}"),
        Token::new_(IN, "in"),
        Token::new_(NAME, "x"),
        Token::new_(EOF, ""),
    ];
    for token in expected.iter() {
        assert_eq!(lexer.next(ParseContext::Application).unwrap(), token);
    }
}

#[test]
fn stray_close_brace_is_layout_error() {
    let mut lexer = lexer("x }");
    assert_eq!(*lexer.next_().unwrap(), Token::new_(NAME, "x"));
    let error = lexer.next_().unwrap_err();
    assert_eq!((error.location.row, error.location.column), (0, 3));
    assert!(lexer.next_().is_err());
}

#[test]
fn close_brace_inside_implicit_block_is_layout_error() {
    let mut lexer = lexer("let x = 1 }");
    for _ in 0..5 {
        lexer.next_().unwrap();
    }
    assert!(lexer.next_().is_err());
}

#[test]
fn let_at_end_of_input_gives_empty_block() {
    let mut lexer = lexer("let");
    assert_eq!(*lexer.next_().unwrap(), Token::new_(LET, "let"));
    assert_eq!(*lexer.next_().unwrap(), Token::new_(LBRACE, "{"));
    assert_eq!(*lexer.next_().unwrap(), Token::new_(RBRACE, "}"));
    assert_eq!(*lexer.next_().unwrap(), Token::new_(EOF, ""));
}

#[test]
fn eof_closes_open_blocks() {
    let mut lexer = lexer("let\n  x = let\n    y = 1");
    let mut kinds = Vec::new();
    loop {
        let kind = lexer.next_().unwrap().token;
        kinds.push(kind);
        if kind == EOF {
            break;
        }
    }
    let opened = kinds.iter().filter(|k| **k == LBRACE).count();
    let closed = kinds.iter().filter(|k| **k == RBRACE).count();
    assert_eq!(opened, 2);
    assert_eq!(closed, 2);
    assert_eq!(kinds[kinds.len() - 3..], [RBRACE, RBRACE, EOF]);
}

#[test]
fn backtrack_then_next_serves_same_tokens() {
    let mut lexer = lexer("a b c d");
    lexer.next_().unwrap();
    let b = lexer.next_().unwrap().clone();
    let c = lexer.next_().unwrap().clone();
    let d = lexer.next_().unwrap().clone();
    lexer.backtrack();
    lexer.backtrack();
    lexer.backtrack();
    assert!(lexer.valid());
    assert_eq!(*lexer.current(), Token::new_(NAME, "a"));
    assert_eq!(*lexer.next(ParseContext::TopLevel).unwrap(), b);
    assert_eq!(*lexer.next(ParseContext::Binding).unwrap(), c);
    assert_eq!(*lexer.next_().unwrap(), d);
    assert_eq!(*lexer.next_().unwrap(), Token::new_(EOF, ""));
}

#[test]
fn backtrack_before_first_token_is_not_valid() {
    let mut lexer = lexer("a");
    assert!(!lexer.valid());
    lexer.next_().unwrap();
    assert!(lexer.valid());
    lexer.backtrack();
    assert!(!lexer.valid());
    assert_eq!(*lexer.next_().unwrap(), Token::new_(NAME, "a"));
}

#[test]
fn buffer_keeps_twenty_tokens() {
    let mut lexer = lexer("a b c d e f g h i j k l m n o p q r s t u v w x y z");
    for _ in 0..26 {
        lexer.next_().unwrap();
    }
    let mut steps = 0;
    while lexer.valid() {
        lexer.backtrack();
        steps += 1;
    }
    assert_eq!(steps, 20);
    assert_eq!(*lexer.next_().unwrap(), Token::new_(NAME, "g"));
}

#[test]
fn tokens_compare_by_kind_and_text() {
    let mut lexer = lexer("  x");
    let token = lexer.next_().unwrap().clone();
    assert_eq!(token.location.column, 3);
    assert_eq!(token, Token::new_(NAME, "x"));
    assert_ne!(token, Token::new_(NAME, "y"));
    assert_ne!(token, Token::new_(OPERATOR, "x"));
    assert_eq!(Token::eof(), Token::new_(EOF, ""));
}

#[test]
fn let_bind_whole_stream() {
    let mut lexer = lexer("let\n    test = 2 + 3\nin test");
    let expected = [
        Token::new_(LET, "let"),
        Token::new_(LBRACE, "{"),
        Token::new_(NAME, "test"),
        Token::new_(EQUALSSIGN, "="),
        Token::new_(NUMBER, "2"),
        Token::new_(OPERATOR, "+"),
        Token::new_(NUMBER, "3"),
        Token::new_(RBRACE, "}"),
        Token::new_(IN, "in"),
        Token::new_(NAME, "test"),
    ];
    for token in expected.iter() {
        assert_eq!(lexer.next_().unwrap(), token);
    }
}

fn kinds_of(source: &str, ctx: ParseContext) -> Vec<TokenEnum> {
    let mut lexer = lexer(source);
    let mut kinds = Vec::new();
    loop {
        match lexer.next(ctx) {
            Ok(token) => {
                kinds.push(token.token);
                if token.token == EOF && token.value.is_empty() {
                    return kinds;
                }
            }
            Err(_) => return kinds,
        }
    }
}

#[test]
fn virtual_tokens_never_come_out() {
    let sources = [
        "let\n  x = 1\n  y = 2\nin x",
        "module M where\nf = let\n     a = 1\n  in a\n",
        "case x of\n  1 -> let\n",
        "where\n\n\n  of\n let",
        "{ let { } } }",
    ];
    let contexts = [ParseContext::Anything, ParseContext::Application, ParseContext::TopLevel];
    for source in sources {
        for ctx in contexts {
            for kind in kinds_of(source, ctx) {
                assert!(kind != INDENTSTART && kind != INDENTLEVEL);
            }
        }
    }
}

#[test]
fn braces_balance_when_input_leaves_none_open() {
    let sources = [
        "let\n  x = 1\n  y = 2\nin x",
        "module M where\nf = let\n     a = 1\n  in a\n",
        "case x of\n  1 -> let\n",
        "where\n\n\n  of\n let",
        "f { x } let { y }",
    ];
    let contexts = [ParseContext::Anything, ParseContext::Application, ParseContext::TopLevel];
    for source in sources {
        for ctx in contexts {
            let kinds = kinds_of(source, ctx);
            assert_eq!(kinds.last(), Some(&EOF));
            let opened = kinds.iter().filter(|k| **k == LBRACE).count();
            let closed = kinds.iter().filter(|k| **k == RBRACE).count();
            assert_eq!(opened, closed);
        }
    }
}

#[test]
fn open_brace_of_the_source_stays_open_at_eof() {
    let kinds = kinds_of("{ let\n x", ParseContext::Anything);
    assert_eq!(kinds, vec![LBRACE, LET, LBRACE, NAME, RBRACE, EOF]);
}

#[test]
fn nested_block_left_of_outer_one_is_empty() {
    let kinds = kinds_of("let\n    x = let\n  y", ParseContext::Anything);
    assert_eq!(
        kinds,
        vec![LET, LBRACE, NAME, EQUALSSIGN, LET, RBRACE, LBRACE, NAME, RBRACE, EOF]
    );
    let kinds = kinds_of("where\n  let\n  x", ParseContext::Anything);
    assert_eq!(
        kinds,
        vec![WHERE, LBRACE, LET, SEMICOLON, LBRACE, RBRACE, SEMICOLON, NAME, RBRACE, EOF]
    );
}

#[test]
fn keywords() {
    assert_eq!(name_or_keyword("module"), MODULE);
    assert_eq!(name_or_keyword("class"), CLASS);
    assert_eq!(name_or_keyword("instance"), INSTANCE);
    assert_eq!(name_or_keyword("where"), WHERE);
    assert_eq!(name_or_keyword("let"), LET);
    assert_eq!(name_or_keyword("in"), IN);
    assert_eq!(name_or_keyword("case"), CASE);
    assert_eq!(name_or_keyword("of"), OF);
    assert_eq!(name_or_keyword("data"), DATA);
    assert_eq!(name_or_keyword("lets"), NAME);
    assert_eq!(name_or_keyword("->"), NAME);
    assert_eq!(kinds_of("data case of", ParseContext::Anything)[..3], [DATA, CASE, OF]);
}

#[test]
fn operator_characters() {
    for c in "+-*/.$:=<>|&".chars() {
        assert!(is_operator(c));
    }
    for c in "a1_ (){}[],;#%".chars() {
        assert!(!is_operator(c));
    }
}

#[test]
fn contexts_reject_what_they_do_not_list() {
    let all = [
        EOF, NAME, OPERATOR, NUMBER, FLOAT, LPARENS, RPARENS, LBRACKET, RBRACKET, LBRACE, RBRACE,
        INDENTSTART, INDENTLEVEL, COMMA, EQUALSSIGN, SEMICOLON, MODULE, CLASS, INSTANCE, WHERE,
        LET, IN, CASE, OF, ARROW, TYPEDECL, DATA,
    ];
    let accepted = |error: fn(TokenEnum) -> bool| -> Vec<TokenEnum> {
        all.iter().copied().filter(|k| !error(*k)).collect()
    };
    assert_eq!(
        accepted(toplevel_error),
        vec![NAME, LPARENS, RBRACKET, SEMICOLON, CLASS, INSTANCE, DATA]
    );
    assert_eq!(accepted(toplevel_new_bind_error), vec![RBRACKET, SEMICOLON]);
    assert_eq!(accepted(binding_error), vec![NAME, OPERATOR, RPARENS, EQUALSSIGN, TYPEDECL]);
    assert_eq!(accepted(constructor_error), vec![NAME, OPERATOR, LPARENS]);
    assert_eq!(
        accepted(sub_expression_error),
        vec![NAME, NUMBER, FLOAT, LPARENS, LBRACKET, SEMICOLON, LET, CASE]
    );
    assert_eq!(accepted(let_expression_end_error), vec![IN]);
    assert_eq!(
        accepted(application_error),
        vec![
            NAME, OPERATOR, NUMBER, FLOAT, LPARENS, RPARENS, LBRACKET, RBRACKET, COMMA, SEMICOLON,
            LET, OF
        ]
    );
    assert_eq!(accepted(error_if_not_name_or_lparens), vec![NAME, LPARENS]);
    assert_eq!(accepted(error_if_not_identifier), vec![NAME]);
    assert_eq!(accepted(error_if_not_name_or_operator), vec![NAME, OPERATOR]);
    assert_eq!(accepted(error_if_not_name_or_equal), vec![NAME, EQUALSSIGN]);
    assert_eq!(accepted(error_if_not_rparens), vec![RPARENS]);
    assert_eq!(
        accepted(type_parse_error),
        vec![RPARENS, RBRACKET, RBRACE, SEMICOLON, ARROW]
    );
    for kind in all {
        assert!(!ParseContext::Anything.is_error(kind));
        assert_eq!(ParseContext::TopLevel.is_error(kind), toplevel_error(kind));
        assert_eq!(ParseContext::Application.is_error(kind), application_error(kind));
        assert_eq!(ParseContext::TypeParse.is_error(kind), type_parse_error(kind));
    }
}

#[test]
fn lexer_knows_where_it_stands() {
    let mut lexer = lexer("ab\ncd");
    let start = lexer.location();
    assert_eq!((start.row, start.column, start.absolute), (0, 0, 0));
    lexer.next_().unwrap();
    let here = lexer.location();
    assert_eq!((here.row, here.column, here.absolute), (0, 2, 2));
    let before = lexer.previous_location();
    assert_eq!((before.row, before.column, before.absolute), (0, 1, 1));
    lexer.next_().unwrap();
    let here = lexer.location();
    assert_eq!((here.row, here.column, here.absolute), (1, 2, 5));
    let before = lexer.previous_location();
    assert_eq!((before.row, before.column, before.absolute), (1, 1, 4));
}
