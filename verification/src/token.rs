//! Tokens and source locations.

use vstd::prelude::*;

verus! {

/// The kinds of token. `INDENTSTART` and `INDENTLEVEL` are virtual: the layout
/// engine makes and consumes them, and no caller of the lexer ever sees one.
#[allow(non_camel_case_types)]
#[derive(Clone, Copy, PartialEq, Eq, Structural, Debug)]
pub enum TokenEnum {
    EOF,
    NAME,
    OPERATOR,
    NUMBER,
    FLOAT,
    LPARENS,
    RPARENS,
    LBRACKET,
    RBRACKET,
    LBRACE,
    RBRACE,
    INDENTSTART,
    INDENTLEVEL,
    COMMA,
    EQUALSSIGN,
    SEMICOLON,
    MODULE,
    CLASS,
    INSTANCE,
    WHERE,
    LET,
    IN,
    CASE,
    OF,
    ARROW,
    TYPEDECL,
    DATA,
}

impl TokenEnum {
    /// The name of the kind, as messages show it.
    pub open spec fn spec_name(self) -> Seq<char> {
        match self {
            TokenEnum::EOF => "EOF"@,
            TokenEnum::NAME => "NAME"@,
            TokenEnum::OPERATOR => "OPERATOR"@,
            TokenEnum::NUMBER => "NUMBER"@,
            TokenEnum::FLOAT => "FLOAT"@,
            TokenEnum::LPARENS => "LPARENS"@,
            TokenEnum::RPARENS => "RPARENS"@,
            TokenEnum::LBRACKET => "LBRACKET"@,
            TokenEnum::RBRACKET => "RBRACKET"@,
            TokenEnum::LBRACE => "LBRACE"@,
            TokenEnum::RBRACE => "RBRACE"@,
            TokenEnum::INDENTSTART => "INDENTSTART"@,
            TokenEnum::INDENTLEVEL => "INDENTLEVEL"@,
            TokenEnum::COMMA => "COMMA"@,
            TokenEnum::EQUALSSIGN => "EQUALSSIGN"@,
            TokenEnum::SEMICOLON => "SEMICOLON"@,
            TokenEnum::MODULE => "MODULE"@,
            TokenEnum::CLASS => "CLASS"@,
            TokenEnum::INSTANCE => "INSTANCE"@,
            TokenEnum::WHERE => "WHERE"@,
            TokenEnum::LET => "LET"@,
            TokenEnum::IN => "IN"@,
            TokenEnum::CASE => "CASE"@,
            TokenEnum::OF => "OF"@,
            TokenEnum::ARROW => "ARROW"@,
            TokenEnum::TYPEDECL => "TYPEDECL"@,
            TokenEnum::DATA => "DATA"@,
        }
    }

    pub fn name(self) -> (r: &'static str)
        ensures
            r@ == self.spec_name(),
    {
        match self {
            TokenEnum::EOF => "EOF",
            TokenEnum::NAME => "NAME",
            TokenEnum::OPERATOR => "OPERATOR",
            TokenEnum::NUMBER => "NUMBER",
            TokenEnum::FLOAT => "FLOAT",
            TokenEnum::LPARENS => "LPARENS",
            TokenEnum::RPARENS => "RPARENS",
            TokenEnum::LBRACKET => "LBRACKET",
            TokenEnum::RBRACKET => "RBRACKET",
            TokenEnum::LBRACE => "LBRACE",
            TokenEnum::RBRACE => "RBRACE",
            TokenEnum::INDENTSTART => "INDENTSTART",
            TokenEnum::INDENTLEVEL => "INDENTLEVEL",
            TokenEnum::COMMA => "COMMA",
            TokenEnum::EQUALSSIGN => "EQUALSSIGN",
            TokenEnum::SEMICOLON => "SEMICOLON",
            TokenEnum::MODULE => "MODULE",
            TokenEnum::CLASS => "CLASS",
            TokenEnum::INSTANCE => "INSTANCE",
            TokenEnum::WHERE => "WHERE",
            TokenEnum::LET => "LET",
            TokenEnum::IN => "IN",
            TokenEnum::CASE => "CASE",
            TokenEnum::OF => "OF",
            TokenEnum::ARROW => "ARROW",
            TokenEnum::TYPEDECL => "TYPEDECL",
            TokenEnum::DATA => "DATA",
        }
    }

    /// The two kinds that exist only inside the layout engine.
    pub open spec fn is_virtual(self) -> bool {
        self == TokenEnum::INDENTSTART || self == TokenEnum::INDENTLEVEL
    }

    /// The keywords after which a block opens by layout.
    pub open spec fn opens_block(self) -> bool {
        self == TokenEnum::LET || self == TokenEnum::WHERE || self == TokenEnum::OF
    }
}

/// A point in the source text. `column` counts the characters consumed on the
/// current line, so the first character of a line stands at column 1.
#[derive(Clone, Copy, PartialEq, Eq, Structural, Debug)]
pub struct Location {
    pub column: usize,
    pub row: usize,
    pub absolute: usize,
}

impl Location {
    pub open spec fn spec_start() -> Location {
        Location { column: 0, row: 0, absolute: 0 }
    }

    /// The location before any character has been consumed.
    pub fn start() -> (r: Location)
        ensures
            r == Location::spec_start(),
    {
        Location { column: 0, row: 0, absolute: 0 }
    }
}

/// What a token is in specifications: its kind, its text and where it began.
pub struct TokenView {
    pub kind: TokenEnum,
    pub lexeme: Seq<char>,
    pub location: Location,
}

impl TokenView {
    /// Two tokens are the same when kind and text agree; the location is
    /// informational.
    pub open spec fn same(self, other: TokenView) -> bool {
        self.kind == other.kind && self.lexeme == other.lexeme
    }
}

#[derive(Debug)]
pub struct Token {
    pub token: TokenEnum,
    pub value: String,
    pub location: Location,
}

impl View for Token {
    type V = TokenView;

    open spec fn view(&self) -> TokenView {
        TokenView { kind: self.token, lexeme: self.value@, location: self.location }
    }
}

impl Token {
    /// The end-of-input token: no text, and no place in the source.
    pub fn eof() -> (r: Token)
        ensures
            r@ == spec_eof(),
    {
        Token { token: TokenEnum::EOF, value: String::new(), location: Location::start() }
    }

    pub fn new(token: TokenEnum, value: String, loc: Location) -> (r: Token)
        ensures
            r@ == (TokenView { kind: token, lexeme: value@, location: loc }),
    {
        Token { token, value, location: loc }
    }

    /// A token without a place in the source, as comparisons need it.
    pub fn new_(token: TokenEnum, value: &str) -> (r: Token)
        ensures
            r@ == (TokenView { kind: token, lexeme: value@, location: Location::spec_start() }),
    {
        Token::new(token, value.to_owned(), Location::start())
    }
}

pub open spec fn spec_eof() -> TokenView {
    TokenView { kind: TokenEnum::EOF, lexeme: Seq::empty(), location: Location::spec_start() }
}

impl Clone for Token {
    fn clone(&self) -> (r: Token)
        ensures
            r@ == self@,
    {
        Token { token: self.token, value: self.value.clone(), location: self.location }
    }
}

impl PartialEq for Token {
    fn eq(&self, rhs: &Token) -> (r: bool) {
        self.token == rhs.token && self.value == rhs.value
    }
}

impl vstd::std_specs::cmp::PartialEqSpecImpl for Token {
    open spec fn obeys_eq_spec() -> bool {
        true
    }

    open spec fn eq_spec(&self, rhs: &Token) -> bool {
        self@.same(rhs@)
    }
}

} // verus!
