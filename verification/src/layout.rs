//! The layout engine as a state machine over plain values: what each request
//! for a token does to the lexer, and what stays true of every state.

use vstd::prelude::*;
use crate::context::ParseContext;
use crate::scan::{lemma_raw_token, raw_token};
use crate::token::{Location, TokenEnum, TokenView};

verus! {

/// How many produced tokens the lexer keeps for backtracking.
pub const RING_CAPACITY: usize = 20;

/// The state of a lexer.
pub struct LexerView {
    /// The source text.
    pub input: Seq<char>,
    /// How many characters of it have been consumed.
    pub pos: int,
    /// Raw and virtual tokens that await layout; the last one is next.
    pub pending: Seq<TokenView>,
    /// Every token delivered so far, oldest first.
    pub produced: Seq<TokenView>,
    /// The indent stack, top last. A column stands for a block opened by
    /// layout, `0` for a brace that the source spelled out.
    pub indents: Seq<usize>,
    /// How many tokens behind the newest one the reader stands.
    pub offset: nat,
}

/// The virtual token that announces a block at the column of `location`.
pub open spec fn indent_start(location: Location) -> TokenView {
    TokenView { kind: TokenEnum::INDENTSTART, lexeme: "{n}"@, location }
}

/// The virtual token that announces a new line at the column of `location`.
pub open spec fn indent_level(location: Location) -> TokenView {
    TokenView { kind: TokenEnum::INDENTLEVEL, lexeme: "<n>"@, location }
}

pub open spec fn open_brace(location: Location) -> TokenView {
    TokenView { kind: TokenEnum::LBRACE, lexeme: "{"@, location }
}

pub open spec fn close_brace(location: Location) -> TokenView {
    TokenView { kind: TokenEnum::RBRACE, lexeme: "}"@, location }
}

pub open spec fn semicolon(location: Location) -> TokenView {
    TokenView { kind: TokenEnum::SEMICOLON, lexeme: ";"@, location }
}

/// How often a token of kind `kind` occurs in `tokens`.
pub open spec fn count_kind(tokens: Seq<TokenView>, kind: TokenEnum) -> nat
    decreases tokens.len(),
{
    if tokens.len() == 0 {
        0
    } else {
        count_kind(tokens.drop_last(), kind) + if tokens.last().kind == kind {
            1nat
        } else {
            0nat
        }
    }
}

/// Each entry of an indent stack is the sentinel `0` or lies right of the
/// entry beneath it.
pub open spec fn indents_ordered(indents: Seq<usize>) -> bool {
    forall|i: int| 0 < i < indents.len() ==> #[trigger] indents[i] == 0 || indents[i - 1] < indents[i]
}

/// The shapes that the pending tokens take: nothing; a raw token; a raw
/// token under an `INDENTSTART`, an `INDENTLEVEL`, or both in that order.
pub open spec fn pending_shaped(pending: Seq<TokenView>) -> bool {
    &&& pending.len() <= 3
    &&& pending.len() >= 1 ==> !pending[0].kind.is_virtual()
    &&& pending.len() == 2 ==> pending[1].kind.is_virtual()
    &&& pending.len() == 3 ==> pending[1].kind == TokenEnum::INDENTSTART && pending[2].kind
        == TokenEnum::INDENTLEVEL
}

/// What a token costs a reader who steps over it: the end of the input can
/// be read any number of times, every other token once.
pub open spec fn cost(kind: TokenEnum) -> nat {
    if kind == TokenEnum::EOF {
        0
    } else {
        1
    }
}

/// An upper bound on the tokens that a pending token of kind `kind` can
/// still bring forth.
pub open spec fn weight(kind: TokenEnum) -> nat {
    if kind == TokenEnum::INDENTLEVEL || kind == TokenEnum::EOF {
        1
    } else if kind == TokenEnum::INDENTSTART || kind == TokenEnum::LBRACE {
        3
    } else if kind.opens_block() {
        6
    } else {
        2
    }
}

pub open spec fn weight_at(pending: Seq<TokenView>, i: int) -> nat {
    if 0 <= i < pending.len() {
        weight(pending[i].kind)
    } else {
        0
    }
}

/// The cost of the newest `n` of `tokens`.
pub open spec fn cost_of_newest(tokens: Seq<TokenView>, n: nat) -> nat
    decreases n,
{
    if n == 0 || n > tokens.len() {
        0
    } else {
        cost(tokens[tokens.len() - n].kind) + cost_of_newest(tokens, (n - 1) as nat)
    }
}

impl LexerView {
    /// The state of a lexer that has read nothing of `input` yet.
    pub open spec fn initial(input: Seq<char>) -> LexerView {
        LexerView {
            input,
            pos: 0,
            pending: Seq::empty(),
            produced: Seq::empty(),
            indents: Seq::empty(),
            offset: 0,
        }
    }

    /// How many of the produced tokens are still kept.
    pub open spec fn retained(self) -> nat {
        if self.produced.len() <= RING_CAPACITY {
            self.produced.len()
        } else {
            RING_CAPACITY as nat
        }
    }

    /// Whether the reader stands on a token.
    pub open spec fn valid(self) -> bool {
        self.offset < self.retained()
    }

    /// The token on which the reader stands.
    pub open spec fn current(self) -> TokenView
        recommends
            self.valid(),
    {
        self.produced[self.produced.len() - 1 - self.offset]
    }

    /// How many tokens the reader has stepped over.
    pub open spec fn cursor(self) -> int {
        self.produced.len() - self.offset
    }

    /// One step back.
    pub open spec fn backtrack(self) -> LexerView {
        LexerView { offset: self.offset + 1, ..self }
    }

    pub open spec fn emit(self, token: TokenView) -> LexerView {
        LexerView { produced: self.produced.push(token), ..self }
    }

    pub open spec fn top_indent(self) -> usize
        recommends
            self.indents.len() > 0,
    {
        self.indents.last()
    }

    /// Reads one raw token and stages it: under an `INDENTSTART` where the
    /// newest produced token opens a block and the raw token is no `{`, and
    /// under an `INDENTLEVEL` where a line break stood in front of it. Both
    /// carry the raw token's location.
    #[verifier::opaque]
    pub open spec fn fetch(self) -> LexerView {
        let raw = raw_token(self.input, self.pos);
        let opens = raw.token.kind != TokenEnum::LBRACE && self.produced.len() > 0
            && self.produced.last().kind.opens_block();
        let staged = seq![raw.token];
        let staged = if opens {
            staged.push(indent_start(raw.token.location))
        } else {
            staged
        };
        let staged = if raw.newline {
            staged.push(indent_level(raw.token.location))
        } else {
            staged
        };
        LexerView { pos: raw.end, pending: staged, ..self }
    }

    /// Whether the next pending token is an `INDENTLEVEL` that neither ends
    /// nor continues a block: no block is open, or the line starts right of
    /// the innermost one.
    pub open spec fn skips_indent_level(self) -> bool {
        &&& self.pending.len() > 0
        &&& self.pending.last().kind == TokenEnum::INDENTLEVEL
        &&& (self.indents.len() == 0 || self.pending.last().location.column > self.top_indent())
    }

    /// Drops an `INDENTLEVEL` that has no effect.
    pub open spec fn settle(self) -> LexerView {
        if self.skips_indent_level() {
            LexerView { pending: self.pending.drop_last(), ..self }
        } else {
            self
        }
    }

    /// The state in which the layout rules are applied: a raw token has been
    /// fetched if none was pending, and an idle `INDENTLEVEL` is gone.
    pub open spec fn prepare(self) -> LexerView {
        if self.pending.len() == 0 {
            self.fetch().settle()
        } else {
            self.settle()
        }
    }

    /// Whether a block opened by layout is the innermost one.
    pub open spec fn in_implicit_block(self) -> bool {
        self.indents.len() > 0 && self.top_indent() != 0
    }

    pub open spec fn pop_pending(self) -> LexerView {
        LexerView { pending: self.pending.drop_last(), ..self }
    }

    pub open spec fn pop_indent(self) -> LexerView {
        LexerView { indents: self.indents.drop_last(), ..self }
    }

    pub open spec fn push_indent(self, column: usize) -> LexerView {
        LexerView { indents: self.indents.push(column), ..self }
    }

    /// The layout rules, applied to the next pending token. `None` is the
    /// layout error: a `}` in the source that closes no `{` of the source.
    #[verifier::opaque]
    pub open spec fn layout(self, ctx: ParseContext) -> Option<LexerView> {
        if self.pending.len() == 0 {
            Some(self)
        } else {
            let top = self.pending.last();
            let n = top.location.column;
            match top.kind {
                TokenEnum::INDENTLEVEL => {
                    if self.indents.len() > 0 && n == self.top_indent() {
                        Some(self.pop_pending().emit(semicolon(top.location)))
                    } else if self.indents.len() > 0 && n < self.top_indent() {
                        Some(self.pop_indent().emit(close_brace(top.location)))
                    } else {
                        Some(self.pop_pending())
                    }
                },
                TokenEnum::INDENTSTART => {
                    if (self.indents.len() > 0 && n > self.top_indent()) || (self.indents.len() == 0
                        && n > 0) {
                        Some(self.pop_pending().push_indent(n).emit(open_brace(top.location)))
                    } else {
                        let emptied = self.emit(open_brace(top.location)).emit(
                            close_brace(top.location),
                        );
                        Some(
                            LexerView {
                                pending: self.pending.drop_last().push(indent_level(top.location)),
                                offset: 1,
                                ..emptied
                            },
                        )
                    }
                },
                TokenEnum::LBRACE => Some(self.pop_pending().push_indent(0).emit(top)),
                TokenEnum::RBRACE => {
                    if self.indents.len() > 0 && self.top_indent() == 0 {
                        Some(self.pop_pending().pop_indent().emit(top))
                    } else {
                        None
                    }
                },
                TokenEnum::EOF => {
                    if self.in_implicit_block() {
                        Some(self.pop_indent().emit(close_brace(top.location)))
                    } else {
                        Some(self.pop_pending().emit(top))
                    }
                },
                _ => {
                    if self.in_implicit_block() && ctx.rejects(top.kind) {
                        Some(self.pop_indent().emit(close_brace(top.location)))
                    } else {
                        Some(self.pop_pending().emit(top))
                    }
                },
            }
        }
    }

    /// A request for the next token in the position `ctx`. A reader who has
    /// stepped back is served the kept token and moves one step forward;
    /// otherwise the layout rules produce a new token.
    #[verifier::opaque]
    pub open spec fn next(self, ctx: ParseContext) -> Option<LexerView> {
        if self.offset > 0 {
            Some(LexerView { offset: (self.offset - 1) as nat, ..self })
        } else {
            self.prepare().layout(ctx)
        }
    }

    /// What holds of every state that a lexer reaches.
    #[verifier::opaque]
    pub open spec fn wf(self) -> bool {
        &&& 0 <= self.pos <= self.input.len()
        &&& self.offset <= self.retained()
        &&& pending_shaped(self.pending)
        &&& forall|i: int| 0 <= i < self.produced.len() ==> !(#[trigger] self.produced[i]).kind.is_virtual()
        &&& indents_ordered(self.indents)
        &&& count_kind(self.produced, TokenEnum::LBRACE) == count_kind(
            self.produced,
            TokenEnum::RBRACE,
        ) + self.indents.len()
    }

    /// What the next token owes the measure while nothing is pending.
    pub open spec fn owed(self) -> nat {
        if self.pending.len() > 0 {
            0
        } else if self.produced.len() > 0 && self.produced.last().kind.opens_block() {
            5
        } else {
            1
        }
    }

    /// A bound on the work left. A request for a token lowers it by at least
    /// the cost of the token served, and a step back over a token raises it
    /// by that cost.
    #[verifier::opaque]
    pub open spec fn potential(self) -> nat {
        (10 * (self.input.len() - self.pos) + weight_at(self.pending, 0) + weight_at(
            self.pending,
            1,
        ) + weight_at(self.pending, 2) + self.indents.len() + self.owed() + cost_of_newest(
            self.produced,
            self.offset,
        )) as nat
    }
}

pub proof fn lemma_count_push(tokens: Seq<TokenView>, token: TokenView, kind: TokenEnum)
    ensures
        count_kind(tokens.push(token), kind) == count_kind(tokens, kind) + if token.kind == kind {
            1nat
        } else {
            0nat
        },
{
    reveal(LexerView::fetch);
    reveal(LexerView::layout);
    reveal(LexerView::next);
    reveal(LexerView::wf);
    reveal(LexerView::potential);
    assert(tokens.push(token).drop_last() =~= tokens);
}

/// Staging a raw token keeps the state well formed and does not raise the
/// measure.
pub proof fn lemma_fetch(m: LexerView)
    requires
        m.wf(),
        m.pending.len() == 0,
        m.offset == 0,
    ensures
        m.fetch().wf(),
        m.fetch().pending.len() > 0,
        m.fetch().potential() <= m.potential(),
        m.fetch().produced == m.produced,
        m.fetch().indents == m.indents,
        m.fetch().input == m.input,
        m.fetch().offset == 0,
{
    reveal(LexerView::fetch);
    reveal(LexerView::layout);
    reveal(LexerView::next);
    reveal(LexerView::wf);
    reveal(LexerView::potential);
    lemma_raw_token(m.input, m.pos);
}

pub proof fn lemma_settle(m: LexerView)
    requires
        m.wf(),
        m.pending.len() > 0,
    ensures
        m.settle().wf(),
        m.settle().pending.len() > 0,
        !m.settle().skips_indent_level(),
        m.settle().potential() <= m.potential(),
        m.settle().produced == m.produced,
        m.settle().indents == m.indents,
        m.settle().input == m.input,
        m.settle().offset == m.offset,
{
    reveal(LexerView::fetch);
    reveal(LexerView::layout);
    reveal(LexerView::next);
    reveal(LexerView::wf);
    reveal(LexerView::potential);
}

pub proof fn lemma_prepare(m: LexerView)
    requires
        m.wf(),
        m.offset == 0,
    ensures
        m.prepare().wf(),
        m.prepare().pending.len() > 0,
        !m.prepare().skips_indent_level(),
        m.prepare().potential() <= m.potential(),
        m.prepare().produced == m.produced,
        m.prepare().indents == m.indents,
        m.prepare().input == m.input,
        m.prepare().offset == 0,
{
    reveal(LexerView::fetch);
    reveal(LexerView::layout);
    reveal(LexerView::next);
    reveal(LexerView::wf);
    reveal(LexerView::potential);
    if m.pending.len() == 0 {
        lemma_fetch(m);
        lemma_settle(m.fetch());
    } else {
        lemma_settle(m);
    }
}

/// The layout rules keep the state well formed, serve a token that is not
/// virtual, and pay for it out of the measure.
pub proof fn lemma_layout(m: LexerView, ctx: ParseContext)
    requires
        m.wf(),
        m.pending.len() > 0,
        !m.skips_indent_level(),
        m.offset == 0,
    ensures
        match m.layout(ctx) {
            Some(n) => {
                &&& n.wf()
                &&& n.valid()
                &&& n.input == m.input
                &&& n.cursor() == m.cursor() + 1
                &&& n.offset <= 1
                &&& n.potential() + cost(n.current().kind) <= m.potential()
            },
            None => true,
        },
{
    reveal(LexerView::fetch);
    reveal(LexerView::layout);
    reveal(LexerView::next);
    reveal(LexerView::wf);
    reveal(LexerView::potential);
    let top = m.pending.last();
    lemma_count_push(m.produced, top, TokenEnum::LBRACE);
    lemma_count_push(m.produced, top, TokenEnum::RBRACE);
    lemma_count_push(m.produced, semicolon(top.location), TokenEnum::LBRACE);
    lemma_count_push(m.produced, semicolon(top.location), TokenEnum::RBRACE);
    lemma_count_push(m.produced, open_brace(top.location), TokenEnum::LBRACE);
    lemma_count_push(m.produced, open_brace(top.location), TokenEnum::RBRACE);
    lemma_count_push(m.produced, close_brace(top.location), TokenEnum::LBRACE);
    lemma_count_push(m.produced, close_brace(top.location), TokenEnum::RBRACE);
    let opened = m.produced.push(open_brace(top.location));
    lemma_count_push(opened, close_brace(top.location), TokenEnum::LBRACE);
    lemma_count_push(opened, close_brace(top.location), TokenEnum::RBRACE);
    match m.layout(ctx) {
        Some(n) => {
            assert(cost_of_newest(n.produced, 0) == 0);
            assert(cost_of_newest(n.produced, 1) == cost(n.produced.last().kind)) by {
                assert(cost_of_newest(n.produced, 0) == 0);
            }
        },
        None => {},
    }
}

/// What one request for a token does to a well-formed state.
pub proof fn lemma_next(m: LexerView, ctx: ParseContext)
    requires
        m.wf(),
    ensures
        match m.next(ctx) {
            Some(n) => {
                &&& n.wf()
                &&& n.valid()
                &&& n.input == m.input
                &&& n.cursor() == m.cursor() + 1
                &&& n.offset <= 1 || n.offset < m.offset
                &&& n.potential() + cost(n.current().kind) <= m.potential()
            },
            None => {
                &&& m.offset == 0
                &&& m.prepare().wf()
                &&& m.prepare().potential() <= m.potential()
            },
        },
{
    reveal(LexerView::fetch);
    reveal(LexerView::layout);
    reveal(LexerView::next);
    reveal(LexerView::wf);
    reveal(LexerView::potential);
    if m.offset > 0 {
        let n = m.next(ctx).unwrap();
        assert(n.potential() + cost(n.current().kind) == m.potential());
    } else {
        lemma_prepare(m);
        lemma_layout(m.prepare(), ctx);
    }
}

/// A reader who has stepped back is served the token it stepped over.
pub proof fn lemma_backtrack_next(m: LexerView, ctx: ParseContext)
    requires
        m.wf(),
        m.valid(),
    ensures
        m.backtrack().next(ctx) == Some(m),
{
    reveal(LexerView::next);
}

/// A step back raises the measure by the cost of the token stepped over.
pub proof fn lemma_backtrack(m: LexerView)
    requires
        m.wf(),
        m.valid(),
    ensures
        m.backtrack().wf(),
        m.backtrack().potential() == m.potential() + cost(m.current().kind),
        m.backtrack().cursor() == m.cursor() - 1,
{
    reveal(LexerView::fetch);
    reveal(LexerView::layout);
    reveal(LexerView::next);
    reveal(LexerView::wf);
    reveal(LexerView::potential);
}

/// The state before anything was read is well formed.
pub proof fn lemma_initial_wf(input: Seq<char>)
    ensures
        LexerView::initial(input).wf(),
{
    reveal(LexerView::fetch);
    reveal(LexerView::layout);
    reveal(LexerView::next);
    reveal(LexerView::wf);
    reveal(LexerView::potential);
}

/// The produced stream holds one `{` more than `}` for each open block, so
/// once every block is closed it holds as many of the one as of the other.
pub proof fn lemma_braces_balance(m: LexerView)
    requires
        m.wf(),
    ensures
        count_kind(m.produced, TokenEnum::LBRACE) == count_kind(m.produced, TokenEnum::RBRACE)
            + m.indents.len(),
        m.indents.len() == 0 ==> count_kind(m.produced, TokenEnum::LBRACE) == count_kind(
            m.produced,
            TokenEnum::RBRACE,
        ),
{
    reveal(LexerView::fetch);
    reveal(LexerView::layout);
    reveal(LexerView::next);
    reveal(LexerView::wf);
    reveal(LexerView::potential);
}

/// When the layout engine produces `EOF`, no block opened by layout is the
/// innermost one any more; where the source left no brace of its own open,
/// the indent stack is empty and the braces of the stream balance.
pub proof fn lemma_eof_closes_blocks(m: LexerView, ctx: ParseContext)
    requires
        m.wf(),
        m.offset == 0,
        m.next(ctx).is_some(),
        m.next(ctx).unwrap().current().kind == TokenEnum::EOF,
    ensures
        ({
            let n = m.next(ctx).unwrap();
            &&& !n.in_implicit_block()
            &&& (forall|i: int| 0 <= i < n.indents.len() ==> n.indents[i] != 0) ==> {
                &&& n.indents.len() == 0
                &&& count_kind(n.produced, TokenEnum::LBRACE) == count_kind(
                    n.produced,
                    TokenEnum::RBRACE,
                )
            }
        }),
{
    reveal(LexerView::fetch);
    reveal(LexerView::layout);
    reveal(LexerView::next);
    reveal(LexerView::wf);
    reveal(LexerView::potential);
    lemma_next(m, ctx);
    lemma_prepare(m);
    let n = m.next(ctx).unwrap();
    if n.indents.len() > 0 {
        assert(n.indents[n.indents.len() - 1] == 0);
    }
}

/// A brace that the source spelled out is closed by a `}` of the source and
/// by nothing else: where the innermost block is such a brace and a request
/// for a token leaves it, the token served is the pending `}`.
pub proof fn lemma_source_brace_closes_source_brace(m: LexerView, ctx: ParseContext)
    requires
        m.wf(),
        m.offset == 0,
        m.indents.len() > 0,
        m.top_indent() == 0,
        m.next(ctx).is_some(),
        m.next(ctx).unwrap().indents.len() < m.indents.len(),
    ensures
        m.prepare().pending.len() > 0,
        m.next(ctx).unwrap().current() == m.prepare().pending.last(),
        m.next(ctx).unwrap().current().kind == TokenEnum::RBRACE,
        m.next(ctx).unwrap().indents == m.indents.drop_last(),
{
    reveal(LexerView::fetch);
    reveal(LexerView::layout);
    reveal(LexerView::next);
    reveal(LexerView::wf);
    lemma_prepare(m);
}

/// The token on which a reader stands is never virtual.
pub proof fn lemma_current_is_not_virtual(m: LexerView)
    requires
        m.wf(),
        m.valid(),
    ensures
        !m.current().kind.is_virtual(),
{
    reveal(LexerView::fetch);
    reveal(LexerView::layout);
    reveal(LexerView::next);
    reveal(LexerView::wf);
    reveal(LexerView::potential);
}

/// `k` steps back.
pub open spec fn backtrack_by(m: LexerView, k: nat) -> LexerView
    decreases k,
{
    if k == 0 {
        m
    } else {
        backtrack_by(m, (k - 1) as nat).backtrack()
    }
}

/// The state after one request for each position of `ctxs` in turn, where
/// none of them ends in the layout error.
pub open spec fn advance_by(m: LexerView, ctxs: Seq<ParseContext>) -> Option<LexerView>
    decreases ctxs.len(),
{
    if ctxs.len() == 0 {
        Some(m)
    } else {
        match m.next(ctxs[0]) {
            Some(n) => advance_by(n, ctxs.drop_first()),
            None => None,
        }
    }
}

/// The tokens that those requests serve, in order.
pub open spec fn served(m: LexerView, ctxs: Seq<ParseContext>) -> Seq<TokenView>
    decreases ctxs.len(),
{
    if ctxs.len() == 0 {
        Seq::empty()
    } else {
        match m.next(ctxs[0]) {
            Some(n) => seq![n.current()] + served(n, ctxs.drop_first()),
            None => Seq::empty(),
        }
    }
}

pub proof fn lemma_backtrack_by(m: LexerView, k: nat)
    ensures
        backtrack_by(m, k) == (LexerView { offset: m.offset + k, ..m }),
    decreases k,
{
    reveal(LexerView::fetch);
    reveal(LexerView::layout);
    reveal(LexerView::next);
    reveal(LexerView::wf);
    reveal(LexerView::potential);
    if k > 0 {
        lemma_backtrack_by(m, (k - 1) as nat);
    }
}

/// A reader who steps back over `k` kept tokens and then asks `k` times for
/// a token, in whatever positions, is served those `k` tokens in their
/// order and stands where it stood before.
pub proof fn lemma_backtrack_then_advance(m: LexerView, k: nat, ctxs: Seq<ParseContext>)
    requires
        m.wf(),
        m.offset + k <= m.retained(),
        ctxs.len() == k,
    ensures
        advance_by(backtrack_by(m, k), ctxs) == Some(m),
        served(backtrack_by(m, k), ctxs) == m.produced.subrange(m.cursor() - k, m.cursor()),
    decreases k,
{
    reveal(LexerView::fetch);
    reveal(LexerView::layout);
    reveal(LexerView::next);
    reveal(LexerView::wf);
    reveal(LexerView::potential);
    lemma_backtrack_by(m, k);
    if k == 0 {
        assert(m.produced.subrange(m.cursor(), m.cursor()) =~= Seq::empty());
    } else {
        let back = backtrack_by(m, k);
        let n = back.next(ctxs[0]).unwrap();
        lemma_backtrack_by(m, (k - 1) as nat);
        assert(n == backtrack_by(m, (k - 1) as nat));
        lemma_backtrack_then_advance(m, (k - 1) as nat, ctxs.drop_first());
        assert(seq![n.current()] + m.produced.subrange(m.cursor() - (k - 1), m.cursor())
            =~= m.produced.subrange(m.cursor() - k, m.cursor()));
    }
}

/// `m`, with the reader `k` tokens further back.
pub open spec fn rewound(m: LexerView, k: nat) -> LexerView {
    LexerView { offset: m.offset + k, ..m }
}

pub proof fn lemma_cost_push(tokens: Seq<TokenView>, token: TokenView, n: nat)
    requires
        n <= tokens.len(),
    ensures
        cost_of_newest(tokens.push(token), n + 1) == cost(token.kind) + cost_of_newest(tokens, n),
    decreases n,
{
    let pushed = tokens.push(token);
    if n == 0 {
        assert(cost_of_newest(pushed, 0) == 0);
        assert(pushed[pushed.len() - 1] == token);
    } else {
        lemma_cost_push(tokens, token, (n - 1) as nat);
        assert(pushed[pushed.len() - (n + 1)] == tokens[tokens.len() - n]);
    }
}

/// A reader never stands further back than where the oldest kept token is.
pub proof fn lemma_offset_bound(m: LexerView)
    requires
        m.wf(),
    ensures
        m.offset <= m.retained(),
        m.offset <= m.produced.len(),
        m.offset <= RING_CAPACITY,
{
    reveal(LexerView::wf);
}

/// Stepping back over kept tokens leaves the state well formed.
pub proof fn lemma_rewound_wf(m: LexerView, k: nat)
    requires
        m.wf(),
        m.offset + k <= m.retained(),
    ensures
        rewound(m, k).wf(),
{
    reveal(LexerView::wf);
}

/// Asking for a token and then stepping back once more than before leaves
/// no more work than stepping back before asking.
pub proof fn lemma_next_then_back(m: LexerView, ctx: ParseContext, j: nat)
    requires
        m.wf(),
        m.next(ctx).is_some(),
        m.offset + j <= m.produced.len(),
    ensures
        rewound(m.next(ctx).unwrap(), j + 1).potential() <= rewound(m, j).potential(),
        rewound(m.next(ctx).unwrap(), j + 1).input == m.input,
{
    reveal(LexerView::fetch);
    reveal(LexerView::layout);
    reveal(LexerView::next);
    reveal(LexerView::wf);
    reveal(LexerView::potential);
    let n = m.next(ctx).unwrap();
    if m.offset > 0 {
        assert(rewound(n, j + 1) == rewound(m, j));
    } else {
        lemma_prepare(m);
        let p = m.prepare();
        lemma_layout(p, ctx);
        let top = p.pending.last();
        assert(cost_of_newest(n.produced, 0) == 0);
        assert(cost_of_newest(n.produced, 1) == cost(n.produced.last().kind)) by {
            assert(cost_of_newest(n.produced, 0) == 0);
        }
        assert(cost_of_newest(m.produced, 0) == 0);
        if n.offset == 0 {
            assert(n.produced == m.produced.push(n.produced.last()));
            lemma_cost_push(m.produced, n.produced.last(), j);
        } else {
            let opened = m.produced.push(open_brace(top.location));
            assert(n.produced == opened.push(close_brace(top.location)));
            lemma_cost_push(m.produced, open_brace(top.location), j);
            lemma_cost_push(opened, close_brace(top.location), j + 1);
        }
    }
}

} // verus!
