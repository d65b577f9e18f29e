//! The lexer: a raw tokenizer over the source text, the layout engine on top
//! of it, and a bounded buffer of produced tokens for backtracking.

use vstd::prelude::*;
use std::collections::VecDeque;
use crate::context::ParseContext;
use crate::layout::{LexerView, RING_CAPACITY, lemma_next};
use crate::scan::{
    has_fraction, lemma_location_bounds, lemma_run_end, lemma_token_end, location_at, raw_token,
    run_end, spec_name_or_keyword, token_end, token_kind, token_start,
};
use crate::text::{CharClass, is_digit, is_line_break, is_operator, spec_is_digit, starts_word};
use crate::token::{Location, Token, TokenEnum, TokenView};

verus! {

/// A `}` in the source that closes no `{` of the source.
#[derive(Clone, Copy, PartialEq, Eq, Structural, Debug)]
pub struct LayoutError {
    /// Where the brace stands.
    pub location: Location,
}

/// The kind of a word.
pub fn name_or_keyword(tok: &str) -> (r: TokenEnum)
    ensures
        r == spec_name_or_keyword(tok@),
{
    if *tok == *"module" {
        TokenEnum::MODULE
    } else if *tok == *"class" {
        TokenEnum::CLASS
    } else if *tok == *"instance" {
        TokenEnum::INSTANCE
    } else if *tok == *"where" {
        TokenEnum::WHERE
    } else if *tok == *"let" {
        TokenEnum::LET
    } else if *tok == *"in" {
        TokenEnum::IN
    } else if *tok == *"case" {
        TokenEnum::CASE
    } else if *tok == *"of" {
        TokenEnum::OF
    } else if *tok == *"data" {
        TokenEnum::DATA
    } else {
        TokenEnum::NAME
    }
}

/// The position in front of the character consumed last.
pub open spec fn previous(pos: int) -> int {
    if pos > 0 {
        pos - 1
    } else {
        0
    }
}

/// The views of a sequence of tokens.
pub open spec fn views(tokens: Seq<Token>) -> Seq<TokenView> {
    tokens.map_values(|t: Token| t@)
}

pub struct Lexer {
    /// The source text.
    input: Vec<char>,
    /// How many characters of it have been consumed.
    pos: usize,
    /// The location that belongs to `pos`.
    location: Location,
    /// The location in front of the character consumed last.
    previous_location: Location,
    /// Raw and virtual tokens that await layout, used as a stack.
    unprocessed_tokens: Vec<Token>,
    /// The newest produced tokens, at most `RING_CAPACITY` of them.
    tokens: VecDeque<Token>,
    /// The indent stack.
    indent_levels: Vec<usize>,
    /// How many tokens behind the newest one the reader stands.
    offset: usize,
    /// Every token produced so far.
    produced: Ghost<Seq<TokenView>>,
}

impl View for Lexer {
    type V = LexerView;

    closed spec fn view(&self) -> LexerView {
        LexerView {
            input: self.input@,
            pos: self.pos as int,
            pending: views(self.unprocessed_tokens@),
            produced: self.produced@,
            indents: self.indent_levels@,
            offset: self.offset as nat,
        }
    }
}

impl Lexer {
    /// The cursor is inside the text and the location is the one that
    /// belongs to it.
    closed spec fn located(&self) -> bool {
        &&& self.pos <= self.input@.len()
        &&& self.location == location_at(self.input@, self.pos as int)
        &&& self.previous_location == location_at(self.input@, previous(self.pos as int))
    }

    /// The buffer holds the newest produced tokens, oldest first.
    closed spec fn buffered(&self) -> bool {
        &&& self.tokens@.len() == self@.retained()
        &&& forall|i: int|
            0 <= i < self.tokens@.len() ==> (#[trigger] self.tokens@[i])@ == self.produced@[self.produced@.len()
                - self.tokens@.len() + i]
    }

    /// What every method expects of a lexer and leaves behind.
    pub closed spec fn wf(&self) -> bool {
        &&& self.located()
        &&& self.buffered()
        &&& self@.wf()
    }

    /// A well-formed lexer is in a well-formed state.
    pub proof fn lemma_view_wf(&self)
        requires
            self.wf(),
        ensures
            self@.wf(),
    {
        reveal(LexerView::wf);
    }

    /// All but the cursor and the location.
    closed spec fn frame(&self) -> (Vec<char>, Vec<Token>, VecDeque<Token>, Vec<usize>, usize, Seq<TokenView>) {
        (
            self.input,
            self.unprocessed_tokens,
            self.tokens,
            self.indent_levels,
            self.offset,
            self.produced@,
        )
    }

    /// A lexer at the start of `input`.
    pub fn new(input: Vec<char>) -> (r: Lexer)
        ensures
            r.wf(),
            r@ == LexerView::initial(input@),
    {
        proof {
            reveal(LexerView::wf);
            reveal(LexerView::potential);
        }
        let r = Lexer {
            input,
            pos: 0,
            location: Location::start(),
            previous_location: Location::start(),
            unprocessed_tokens: Vec::new(),
            tokens: VecDeque::with_capacity(RING_CAPACITY),
            indent_levels: Vec::new(),
            offset: 0,
            produced: Ghost(Seq::empty()),
        };
        assert(r@.pending =~= Seq::empty());
        assert(r@.indents =~= Seq::empty());
        r
    }

    /// Where the lexer stands in the source.
    pub fn location(&self) -> (r: Location)
        requires
            self.wf(),
        ensures
            r == location_at(self@.input, self@.pos),
    {
        self.location
    }

    /// Where the lexer stood in front of the character consumed last.
    pub fn previous_location(&self) -> (r: Location)
        requires
            self.wf(),
        ensures
            r == location_at(self@.input, previous(self@.pos)),
    {
        self.previous_location
    }

    /// The next character, which stays where it is.
    fn peek(&self) -> (r: Option<char>)
        requires
            self.located(),
        ensures
            r == if self.pos < self.input@.len() {
                Some(self.input@[self.pos as int])
            } else {
                None
            },
    {
        if self.pos < self.input.len() {
            Some(self.input[self.pos])
        } else {
            None
        }
    }

    /// Consumes one character and moves the location over it.
    fn read_char(&mut self) -> (r: Option<char>)
        requires
            old(self).located(),
        ensures
            final(self).located(),
            final(self).frame() == old(self).frame(),
            old(self).pos < old(self).input@.len() ==> r == Some(
                old(self).input@[old(self).pos as int],
            ) && final(self).pos == old(self).pos + 1,
            old(self).pos >= old(self).input@.len() ==> r.is_none() && final(self).pos == old(
                self,
            ).pos,
    {
        if self.pos < self.input.len() {
            let c = self.input[self.pos];
            proof {
                lemma_location_bounds(self.input@, self.pos as int + 1);
            }
            self.previous_location = self.location;
            self.pos = self.pos + 1;
            self.location.absolute = self.location.absolute + 1;
            if is_line_break(c) {
                self.location.column = 0;
                self.location.row = self.location.row + 1;
            } else {
                self.location.column = self.location.column + 1;
            }
            Some(c)
        } else {
            None
        }
    }

    /// Consumes the maximal run of characters of `class` and appends it to
    /// `result`.
    fn scan_run(&mut self, class: CharClass, result: &mut String)
        requires
            old(self).located(),
        ensures
            final(self).located(),
            final(self).frame() == old(self).frame(),
            final(self).pos == run_end(old(self).input@, old(self).pos as int, class),
            final(result)@ == old(result)@ + old(self).input@.subrange(
                old(self).pos as int,
                final(self).pos as int,
            ),
    {
        let ghost start = self.pos as int;
        let ghost text = self.input@;
        let ghost before = result@;
        let ghost frame = self.frame();
        assert(result@ =~= before + text.subrange(start, start));
        loop
            invariant
                self.located(),
                self.frame() == frame,
                self.input@ == text,
                0 <= start <= self.pos <= text.len(),
                run_end(text, self.pos as int, class) == run_end(text, start, class),
                result@ == before + text.subrange(start, self.pos as int),
            ensures
                self.pos == run_end(text, start, class),
            decreases text.len() - self.pos,
        {
            match self.peek() {
                Some(x) => {
                    if !class.test(x) {
                        break ;
                    }
                    let ghost at = self.pos as int;
                    self.read_char();
                    result.push(x);
                    assert(result@ =~= before + text.subrange(start, at + 1));
                },
                None => {
                    break ;
                },
            }
        }
    }

    /// Consumes the digits at the cursor.
    fn scan_digits(&mut self) -> (r: String)
        requires
            old(self).located(),
        ensures
            final(self).located(),
            final(self).frame() == old(self).frame(),
            final(self).pos == run_end(old(self).input@, old(self).pos as int, CharClass::Digit),
            r@ == old(self).input@.subrange(old(self).pos as int, final(self).pos as int),
    {
        let mut result = String::new();
        self.scan_run(CharClass::Digit, &mut result);
        assert(result@ =~= self.input@.subrange(old(self).pos as int, self.pos as int));
        result
    }

    /// The number whose first digit `c` has just been consumed: the digits
    /// that follow, and a fraction where a point and a digit follow them.
    fn scan_number(&mut self, c: char, location: Location) -> (r: Token)
        requires
            old(self).located(),
            old(self).pos >= 1,
            old(self).input@[old(self).pos - 1] == c,
            spec_is_digit(c),
        ensures
            final(self).located(),
            final(self).frame() == old(self).frame(),
            final(self).pos == token_end(old(self).input@, old(self).pos - 1),
            r@ == (TokenView {
                kind: token_kind(old(self).input@, old(self).pos - 1),
                lexeme: old(self).input@.subrange(old(self).pos - 1, final(self).pos as int),
                location,
            }),
    {
        let ghost text = self.input@;
        let ghost start = self.pos - 1;
        proof {
            lemma_run_end(text, start + 1, CharClass::Digit);
        }
        let mut number = String::new();
        number.push(c);
        let digits = self.scan_digits();
        number.append(digits.as_str());
        assert(number@ =~= text.subrange(start, self.pos as int));
        let mut token = TokenEnum::NUMBER;
        if self.input.len() - self.pos > 1 && self.input[self.pos] == '.' && is_digit(
            self.input[self.pos + 1],
        ) {
            let ghost point = self.pos as int;
            assert(has_fraction(text, point));
            token = TokenEnum::FLOAT;
            self.read_char();
            number.push('.');
            let first = self.input[self.pos];
            self.read_char();
            number.push(first);
            proof {
                lemma_run_end(text, point + 2, CharClass::Digit);
            }
            let fraction = self.scan_digits();
            number.append(fraction.as_str());
            assert(number@ =~= text.subrange(start, self.pos as int));
        }
        Token::new(token, number, location)
    }

    /// Skips the white space at the cursor.
    fn skip_whitespace(&mut self)
        requires
            old(self).located(),
        ensures
            final(self).located(),
            final(self).frame() == old(self).frame(),
            final(self).pos == token_start(old(self).input@, old(self).pos as int),
    {
        let ghost start = self.pos as int;
        let ghost text = self.input@;
        let ghost frame = self.frame();
        loop
            invariant
                self.located(),
                self.frame() == frame,
                self.input@ == text,
                start <= self.pos <= text.len(),
                token_start(text, self.pos as int) == token_start(text, start),
            ensures
                self.pos == token_start(text, start),
            decreases text.len() - self.pos,
        {
            match self.peek() {
                Some(x) => {
                    if !CharClass::Whitespace.test(x) {
                        break ;
                    }
                    self.read_char();
                },
                None => {
                    break ;
                },
            }
        }
    }

    /// The next raw token. `newline` is set where a line break was skipped
    /// in front of it, and is left as it was otherwise.
    fn next_indent_token(&mut self, newline: &mut bool) -> (r: Token)
        requires
            old(self).located(),
        ensures
            final(self).located(),
            final(self).frame() == old(self).frame(),
            r@ == raw_token(old(self).input@, old(self).pos as int).token,
            final(self).pos == raw_token(old(self).input@, old(self).pos as int).end,
            *final(newline) == (*old(newline) || raw_token(
                old(self).input@,
                old(self).pos as int,
            ).newline),
    {
        let ghost text = self.input@;
        let ghost from = self.pos as int;
        proof {
            lemma_run_end(text, from, CharClass::Whitespace);
            lemma_location_bounds(text, from);
            lemma_location_bounds(text, token_start(text, from));
        }
        let row = self.location.row;
        self.skip_whitespace();
        if self.location.row != row {
            *newline = true;
        }
        let ghost start = self.pos as int;
        let c = match self.read_char() {
            Some(x) => x,
            None => {
                return Token::eof();
            },
        };
        proof {
            lemma_token_end(text, start);
        }
        let start_location = self.location;
        if is_operator(c) {
            let mut result = String::new();
            result.push(c);
            self.scan_run(CharClass::Operator, &mut result);
            assert(result@ =~= text.subrange(start, self.pos as int));
            let tok = if *result.as_str() == *"=" {
                TokenEnum::EQUALSSIGN
            } else if *result.as_str() == *"->" {
                TokenEnum::ARROW
            } else if *result.as_str() == *"::" {
                TokenEnum::TYPEDECL
            } else {
                TokenEnum::OPERATOR
            };
            Token::new(tok, result, start_location)
        } else if is_digit(c) {
            self.scan_number(c, start_location)
        } else if starts_word(c) {
            let mut result = String::new();
            result.push(c);
            self.scan_run(CharClass::Word, &mut result);
            assert(result@ =~= text.subrange(start, self.pos as int));
            let tok = name_or_keyword(result.as_str());
            Token::new(tok, result, start_location)
        } else {
            let tok = match c {
                ';' => TokenEnum::SEMICOLON,
                '(' => TokenEnum::LPARENS,
                ')' => TokenEnum::RPARENS,
                '[' => TokenEnum::LBRACKET,
                ']' => TokenEnum::RBRACKET,
                '{' => TokenEnum::LBRACE,
                '}' => TokenEnum::RBRACE,
                ',' => TokenEnum::COMMA,
                _ => TokenEnum::EOF,
            };
            let mut result = String::new();
            result.push(c);
            assert(result@ =~= text.subrange(start, self.pos as int));
            Token::new(tok, result, start_location)
        }
    }

    /// Cursor, location and buffer agree with one another.
    closed spec fn grounded(&self) -> bool {
        self.located() && self.buffered()
    }

    /// Delivers `token`. The buffer drops its oldest token when it is full.
    fn emit(&mut self, token: Token)
        requires
            old(self).grounded(),
        ensures
            final(self).grounded(),
            final(self)@ == old(self)@.emit(token@),
    {
        if self.tokens.len() >= RING_CAPACITY {
            self.tokens.pop_front();
        }
        self.tokens.push_back(token);
        proof {
            self.produced = Ghost(self.produced@.push(token@));
        }
    }

    /// Takes the next pending token off the stage.
    fn pop_pending(&mut self) -> (r: Token)
        requires
            old(self).grounded(),
            old(self)@.pending.len() > 0,
        ensures
            final(self).grounded(),
            final(self)@ == old(self)@.pop_pending(),
            r@ == old(self)@.pending.last(),
    {
        let r = self.unprocessed_tokens.pop().unwrap();
        assert(self@.pending =~= old(self)@.pending.drop_last());
        r
    }

    fn push_pending(&mut self, token: Token)
        requires
            old(self).grounded(),
        ensures
            final(self).grounded(),
            final(self)@ == (LexerView {
                pending: old(self)@.pending.push(token@),
                ..old(self)@
            }),
    {
        self.unprocessed_tokens.push(token);
        assert(self@.pending =~= old(self)@.pending.push(token@));
    }

    /// Leaves the innermost block.
    fn pop_indent(&mut self)
        requires
            old(self).grounded(),
            old(self)@.indents.len() > 0,
        ensures
            final(self).grounded(),
            final(self)@ == old(self)@.pop_indent(),
    {
        self.indent_levels.pop();
    }

    /// Enters a block at `column`; `0` stands for a brace of the source.
    fn push_indent(&mut self, column: usize)
        requires
            old(self).grounded(),
        ensures
            final(self).grounded(),
            final(self)@ == old(self)@.push_indent(column),
    {
        self.indent_levels.push(column);
    }

    /// Reads a raw token, stages it with the virtual tokens that belong in
    /// front of it, and applies the layout rules.
    fn new_token(&mut self, ctx: ParseContext) -> (r: Result<(), LayoutError>)
        requires
            old(self).wf(),
            old(self)@.pending.len() == 0,
            old(self)@.offset == 0,
        ensures
            final(self).wf(),
            match old(self)@.next(ctx) {
                Some(n) => r.is_ok() && final(self)@ == n,
                None => r == Err::<(), LayoutError>(
                    LayoutError { location: old(self)@.prepare().pending.last().location },
                ) && final(self)@ == old(self)@.prepare(),
            },
    {
        proof {
            reveal(LexerView::fetch);
            reveal(LexerView::next);
            reveal(LexerView::wf);
        }
        let mut newline = false;
        let n = self.next_indent_token(&mut newline);
        let kind = n.token;
        let loc = n.location;
        self.push_pending(n);
        if kind != TokenEnum::LBRACE && self.tokens.len() > 0 {
            let back = self.tokens[self.tokens.len() - 1].token;
            if back == TokenEnum::LET || back == TokenEnum::WHERE || back == TokenEnum::OF {
                self.push_pending(Token::new(TokenEnum::INDENTSTART, "{n}".to_owned(), loc));
            }
        }
        if newline {
            self.push_pending(Token::new(TokenEnum::INDENTLEVEL, "<n>".to_owned(), loc));
        }
        proof {
            assert(self@.pending =~= old(self)@.fetch().pending);
            assert(self@ == old(self)@.fetch());
            crate::layout::lemma_fetch(old(self)@);
        }
        self.layout_independent_token(ctx)
    }

    /// Applies the layout rules to the next pending token: an `INDENTLEVEL`
    /// without effect is dropped first, then exactly one token is produced,
    /// or the layout error is reported and nothing is produced.
    fn layout_independent_token(&mut self, ctx: ParseContext) -> (r: Result<(), LayoutError>)
        requires
            old(self).wf(),
            old(self)@.pending.len() > 0,
            old(self)@.offset == 0,
        ensures
            final(self).wf(),
            match old(self)@.settle().layout(ctx) {
                Some(n) => r.is_ok() && final(self)@ == n,
                None => r == Err::<(), LayoutError>(
                    LayoutError { location: old(self)@.settle().pending.last().location },
                ) && final(self)@ == old(self)@.settle(),
            },
    {
        proof {
            reveal(LexerView::layout);
            reveal(LexerView::wf);
        }
        proof {
            crate::layout::lemma_settle(old(self)@);
            crate::layout::lemma_layout(old(self)@.settle(), ctx);
        }
        let len = self.unprocessed_tokens.len();
        if self.unprocessed_tokens[len - 1].token == TokenEnum::INDENTLEVEL && (
        self.indent_levels.len() == 0 || self.unprocessed_tokens[len - 1].location.column
            > self.indent_levels[self.indent_levels.len() - 1]) {
            self.pop_pending();
        }
        assert(self@ == old(self)@.settle());
        let ghost settled = self@;
        let len = self.unprocessed_tokens.len();
        let tok = self.unprocessed_tokens[len - 1].token;
        let location = self.unprocessed_tokens[len - 1].location;
        assert(settled.pending.last() == self.unprocessed_tokens@[len - 1]@);
        let depth = self.indent_levels.len();
        match tok {
            TokenEnum::INDENTLEVEL => {
                let m = self.indent_levels[depth - 1];
                if m == location.column {
                    self.pop_pending();
                    self.emit(Token::new(TokenEnum::SEMICOLON, ";".to_owned(), location));
                } else {
                    self.pop_indent();
                    self.emit(Token::new(TokenEnum::RBRACE, "}".to_owned(), location));
                }
            },
            TokenEnum::INDENTSTART => {
                let n = location.column;
                if (depth != 0 && n > self.indent_levels[depth - 1]) || (depth == 0 && n > 0) {
                    self.pop_pending();
                    self.push_indent(n);
                    self.emit(Token::new(TokenEnum::LBRACE, "{".to_owned(), location));
                } else {
                    self.emit(Token::new(TokenEnum::LBRACE, "{".to_owned(), location));
                    self.emit(Token::new(TokenEnum::RBRACE, "}".to_owned(), location));
                    self.pop_pending();
                    self.push_pending(Token::new(TokenEnum::INDENTLEVEL, "<n>".to_owned(), location));
                    self.offset = 1;
                }
            },
            TokenEnum::LBRACE => {
                let token = self.pop_pending();
                self.push_indent(0);
                self.emit(token);
            },
            TokenEnum::RBRACE => {
                if depth > 0 && self.indent_levels[depth - 1] == 0 {
                    let token = self.pop_pending();
                    self.pop_indent();
                    self.emit(token);
                } else {
                    return Err(LayoutError { location });
                }
            },
            TokenEnum::EOF => {
                if depth != 0 && self.indent_levels[depth - 1] != 0 {
                    self.pop_indent();
                    self.emit(Token::new(TokenEnum::RBRACE, "}".to_owned(), location));
                } else {
                    let token = self.pop_pending();
                    self.emit(token);
                }
            },
            _ => {
                if depth != 0 && self.indent_levels[depth - 1] != 0 && ctx.is_error(tok) {
                    self.pop_indent();
                    self.emit(Token::new(TokenEnum::RBRACE, "}".to_owned(), location));
                } else {
                    let token = self.pop_pending();
                    self.emit(token);
                }
            },
        }
        assert(self@ == settled.layout(ctx).unwrap());
        Ok(())
    }

    /// The next token in the grammatical position `ctx`. A reader who has
    /// stepped back is served the kept token; otherwise the layout rules
    /// produce one. In front of a token that `ctx` rejects, a block opened
    /// by layout is closed first.
    pub fn next(&mut self, ctx: ParseContext) -> (r: Result<&Token, LayoutError>)
        requires
            old(self).wf(),
        ensures
            final(self).wf(),
            r.is_ok() ==> !r.unwrap()@.kind.is_virtual(),
            match old(self)@.next(ctx) {
                Some(n) => final(self)@ == n && r.is_ok() && r.unwrap()@ == n.current(),
                None => final(self)@ == old(self)@.prepare() && r.is_err() && r.unwrap_err().location
                    == old(self)@.prepare().pending.last().location,
            },
    {
        proof {
            reveal(LexerView::next);
            reveal(LexerView::wf);
        }
        proof {
            lemma_next(old(self)@, ctx);
        }
        if self.offset > 0 {
            self.offset = self.offset - 1;
        } else if self.unprocessed_tokens.len() > 0 {
            match self.layout_independent_token(ctx) {
                Ok(()) => {},
                Err(e) => {
                    return Err(e);
                },
            }
        } else {
            match self.new_token(ctx) {
                Ok(()) => {},
                Err(e) => {
                    return Err(e);
                },
            }
        }
        Ok(&self.tokens[self.tokens.len() - 1 - self.offset])
    }

    /// The next token where nothing counts as an error.
    pub fn next_(&mut self) -> (r: Result<&Token, LayoutError>)
        requires
            old(self).wf(),
        ensures
            final(self).wf(),
            r.is_ok() ==> !r.unwrap()@.kind.is_virtual(),
            match old(self)@.next(ParseContext::Anything) {
                Some(n) => final(self)@ == n && r.is_ok() && r.unwrap()@ == n.current(),
                None => final(self)@ == old(self)@.prepare() && r.is_err() && r.unwrap_err().location
                    == old(self)@.prepare().pending.last().location,
            },
    {
        self.next(ParseContext::Anything)
    }

    /// Whether the reader stands on a token.
    pub fn valid(&self) -> (r: bool)
        requires
            self.wf(),
        ensures
            r == self@.valid(),
    {
        proof {
            reveal(LexerView::wf);
        }
        self.offset < self.tokens.len()
    }

    /// The token on which the reader stands.
    pub fn current(&self) -> (r: &Token)
        requires
            self.wf(),
            self@.valid(),
        ensures
            r@ == self@.current(),
            !r@.kind.is_virtual(),
    {
        proof {
            reveal(LexerView::wf);
        }
        &self.tokens[self.tokens.len() - 1 - self.offset]
    }

    /// Steps back over the current token, which the next request serves again.
    pub fn backtrack(&mut self)
        requires
            old(self).wf(),
            old(self)@.valid(),
        ensures
            final(self).wf(),
            final(self)@ == old(self)@.backtrack(),
    {
        proof {
            reveal(LexerView::wf);
        }
        self.offset = self.offset + 1;
    }
}

} // verus!
