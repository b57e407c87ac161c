//! Recursive-descent parser: tokens to syntax tree.
//!
//! Precedence, tightest first: `!` prefix negation, `&` meet, `|`
//! join, `>`/`<` implication and coimplication. Binary operators are
//! left-associative; negations and parentheses nest at most 32 deep.

use vstd::prelude::*;
use crate::dsl::ast::{span_of, Expr, ExprV, Span};
use crate::dsl::error::{DslError, DslErrorKind, DslErrorKindV, DslErrorV};
use crate::dsl::lexer::{Token, TokenKind, TokenKindV, TokenV, tokens_view};
use crate::notation::grid_from_name;
use crate::text::{chars_of, int_decimal, push_i64, push_str};
use crate::time::Grid;
use vstd::string::StringSliceAdditionalSpecFns;

verus! {

/// Deepest nesting of negations and parentheses the parser accepts.
pub const MAX_DEPTH: usize = 32;

/// What a parser works on: the tokens, the source's length in bytes
/// (for end-of-input spans) and the source text (for errors).
pub struct PEnv {
    pub toks: Seq<TokenV>,
    pub len: nat,
    pub src: Seq<char>,
}

/// A parse: the expression and the position after it, or an error.
pub type PResult = Result<(ExprV, nat), DslErrorV>;

/// An error at `span`.
pub open spec fn perr(e: PEnv, kind: DslErrorKindV, span: Span) -> DslErrorV {
    DslErrorV { kind, span, source: e.src }
}

/// The empty span at the end of the source.
pub open spec fn eof_span_of(e: PEnv) -> Span {
    Span { start: e.len as usize, end: e.len as usize }
}

/// The debug rendering of a token kind, as shown in "expected"
/// errors.
pub open spec fn token_debug(k: TokenKindV) -> Seq<char> {
    match k {
        TokenKindV::Ident(s) => "Ident(\""@ + s + "\")"@,
        TokenKindV::Ampersand => "Ampersand"@,
        TokenKindV::Pipe => "Pipe"@,
        TokenKindV::Gt => "Gt"@,
        TokenKindV::Lt => "Lt"@,
        TokenKindV::Bang => "Bang"@,
        TokenKindV::Tilde => "Tilde"@,
        TokenKindV::At => "At"@,
        TokenKindV::Colon => "Colon"@,
        TokenKindV::Int(n) => "Int("@ + int_decimal(n as int) + ")"@,
        TokenKindV::LParen => "LParen"@,
        TokenKindV::RParen => "RParen"@,
    }
}

/// Whether the token at `pos` exists and has kind tag `tag`: 0 `&`,
/// 1 `|`, 2 `>`, 3 `<`, 4 `!`, 5 `)`.
pub open spec fn at_tag(e: PEnv, pos: nat, tag: nat) -> bool {
    pos < e.toks.len() && match e.toks[pos as int].kind {
        TokenKindV::Ampersand => tag == 0,
        TokenKindV::Pipe => tag == 1,
        TokenKindV::Gt => tag == 2,
        TokenKindV::Lt => tag == 3,
        TokenKindV::Bang => tag == 4,
        TokenKindV::RParen => tag == 5,
        _ => false,
    }
}

/// The span from the start of `a` to the end of `b`.
pub open spec fn cover(a: ExprV, b: ExprV) -> Span {
    Span { start: span_of(a).start, end: span_of(b).end }
}

/// `impl_expr := join_expr (('>' | '<') join_expr)*`
pub open spec fn p_impl(e: PEnv, pos: nat, depth: nat) -> PResult
    decreases e.toks.len() - pos, 8int,
{
    match p_join(e, pos, depth) {
        Ok((l, p1)) => if pos < p1 <= e.toks.len() {
            p_impl_rest(e, p1, depth, l)
        } else {
            Ok((l, p1))
        },
        Err(x) => Err(x),
    }
}

/// The `(('>' | '<') join_expr)*` tail after `left`.
pub open spec fn p_impl_rest(e: PEnv, pos: nat, depth: nat, left: ExprV) -> PResult
    decreases e.toks.len() - pos, 7int,
{
    if at_tag(e, pos, 2) || at_tag(e, pos, 3) {
        match p_join(e, pos + 1, depth) {
            Ok((r, p2)) => {
                let node = if at_tag(e, pos, 2) {
                    ExprV::Imply(Box::new(left), Box::new(r), cover(left, r))
                } else {
                    ExprV::Coimply(Box::new(left), Box::new(r), cover(left, r))
                };
                if pos < p2 <= e.toks.len() {
                    p_impl_rest(e, p2, depth, node)
                } else {
                    Ok((node, p2))
                }
            },
            Err(x) => Err(x),
        }
    } else {
        Ok((left, pos))
    }
}

/// `join_expr := meet_expr ('|' meet_expr)*`
pub open spec fn p_join(e: PEnv, pos: nat, depth: nat) -> PResult
    decreases e.toks.len() - pos, 6int,
{
    match p_meet(e, pos, depth) {
        Ok((l, p1)) => if pos < p1 <= e.toks.len() {
            p_join_rest(e, p1, depth, l)
        } else {
            Ok((l, p1))
        },
        Err(x) => Err(x),
    }
}

/// The `('|' meet_expr)*` tail after `left`.
pub open spec fn p_join_rest(e: PEnv, pos: nat, depth: nat, left: ExprV) -> PResult
    decreases e.toks.len() - pos, 5int,
{
    if at_tag(e, pos, 1) {
        match p_meet(e, pos + 1, depth) {
            Ok((r, p2)) => {
                let node = ExprV::Join(Box::new(left), Box::new(r), cover(left, r));
                if pos < p2 <= e.toks.len() {
                    p_join_rest(e, p2, depth, node)
                } else {
                    Ok((node, p2))
                }
            },
            Err(x) => Err(x),
        }
    } else {
        Ok((left, pos))
    }
}

/// `meet_expr := unary ('&' unary)*`
pub open spec fn p_meet(e: PEnv, pos: nat, depth: nat) -> PResult
    decreases e.toks.len() - pos, 4int,
{
    match p_unary(e, pos, depth) {
        Ok((l, p1)) => if pos < p1 <= e.toks.len() {
            p_meet_rest(e, p1, depth, l)
        } else {
            Ok((l, p1))
        },
        Err(x) => Err(x),
    }
}

/// The `('&' unary)*` tail after `left`.
pub open spec fn p_meet_rest(e: PEnv, pos: nat, depth: nat, left: ExprV) -> PResult
    decreases e.toks.len() - pos, 3int,
{
    if at_tag(e, pos, 0) {
        match p_unary(e, pos + 1, depth) {
            Ok((r, p2)) => {
                let node = ExprV::Meet(Box::new(left), Box::new(r), cover(left, r));
                if pos < p2 <= e.toks.len() {
                    p_meet_rest(e, p2, depth, node)
                } else {
                    Ok((node, p2))
                }
            },
            Err(x) => Err(x),
        }
    } else {
        Ok((left, pos))
    }
}

/// `unary := '!' unary | primary`
pub open spec fn p_unary(e: PEnv, pos: nat, depth: nat) -> PResult
    decreases e.toks.len() - pos, 2int,
{
    if at_tag(e, pos, 4) {
        let start = e.toks[pos as int].span.start;
        if depth + 1 > MAX_DEPTH {
            Err(perr(e, DslErrorKindV::NestingTooDeep, Span { start, end: (start + 1) as usize }))
        } else {
            match p_unary(e, pos + 1, depth + 1) {
                Ok((inner, p2)) => Ok(
                    (
                        ExprV::Neg(Box::new(inner), Span { start, end: span_of(inner).end }),
                        p2,
                    ),
                ),
                Err(x) => Err(x),
            }
        }
    } else {
        p_primary(e, pos, depth)
    }
}

/// `primary := ident | '(' impl_expr ')'`; an identifier that names a
/// grid is an atom, any other is a variable.
pub open spec fn p_primary(e: PEnv, pos: nat, depth: nat) -> PResult
    decreases e.toks.len() - pos, 1int,
{
    if pos >= e.toks.len() {
        Err(perr(e, DslErrorKindV::UnexpectedEof, eof_span_of(e)))
    } else {
        let t = e.toks[pos as int];
        match t.kind {
            TokenKindV::Ident(text) => match grid_from_name(text) {
                Some(g) => Ok((ExprV::Atom(g, t.span), pos + 1)),
                None => Ok((ExprV::Var(text, t.span), pos + 1)),
            },
            TokenKindV::LParen => {
                let start = t.span.start;
                if depth + 1 > MAX_DEPTH {
                    Err(
                        perr(
                            e,
                            DslErrorKindV::NestingTooDeep,
                            Span { start, end: (start + 1) as usize },
                        ),
                    )
                } else {
                    match p_impl(e, pos + 1, depth + 1) {
                        Ok((inner, p2)) => if at_tag(e, p2, 5) {
                            Ok((inner, p2 + 1))
                        } else {
                            Err(
                                perr(
                                    e,
                                    DslErrorKindV::UnmatchedParen,
                                    Span { start, end: span_of(inner).end },
                                ),
                            )
                        },
                        Err(x) => Err(x),
                    }
                }
            },
            _ => Err(
                perr(
                    e,
                    DslErrorKindV::Expected {
                        expected: "identifier or '('"@,
                        found: token_debug(t.kind),
                    },
                    t.span,
                ),
            ),
        }
    }
}

/// A whole token stream: an expression that uses every token.
pub open spec fn parse_tokens_spec(e: PEnv) -> Result<ExprV, DslErrorV> {
    if e.toks.len() == 0 {
        Err(perr(e, DslErrorKindV::EmptyInput, eof_span_of(e)))
    } else {
        match p_impl(e, 0, 0) {
            Ok((x, p)) => if p >= e.toks.len() {
                Ok(x)
            } else {
                Err(
                    perr(
                        e,
                        DslErrorKindV::Expected {
                            expected: "end of input"@,
                            found: token_debug(e.toks[p as int].kind),
                        },
                        e.toks[p as int].span,
                    ),
                )
            },
            Err(x) => Err(x),
        }
    }
}

/// The parsing environment for `tokens` over `source`.
pub open spec fn penv(tokens: Seq<Token>, source: &str) -> PEnv {
    PEnv { toks: tokens_view(tokens), len: source.spec_bytes().len(), src: source@ }
}

/// The debug rendering of a token kind.
pub fn debug_token_kind(k: &TokenKind) -> (s: String)
    ensures
        s@ == token_debug(k@),
{
    let mut s = String::new();
    match k {
        TokenKind::Ident(t) => {
            push_str(&mut s, "Ident(\"");
            push_str(&mut s, t.as_str());
            push_str(&mut s, "\")");
        },
        TokenKind::Ampersand => push_str(&mut s, "Ampersand"),
        TokenKind::Pipe => push_str(&mut s, "Pipe"),
        TokenKind::Gt => push_str(&mut s, "Gt"),
        TokenKind::Lt => push_str(&mut s, "Lt"),
        TokenKind::Bang => push_str(&mut s, "Bang"),
        TokenKind::Tilde => push_str(&mut s, "Tilde"),
        TokenKind::At => push_str(&mut s, "At"),
        TokenKind::Colon => push_str(&mut s, "Colon"),
        TokenKind::Int(n) => {
            push_str(&mut s, "Int(");
            push_i64(&mut s, *n);
            push_str(&mut s, ")");
        },
        TokenKind::LParen => push_str(&mut s, "LParen"),
        TokenKind::RParen => push_str(&mut s, "RParen"),
    }
    assert(s@ =~= token_debug(k@));
    s
}

/// Every token starts before the largest byte offset, as any token of
/// a real input does.
pub open spec fn spans_ok(t: Seq<Token>) -> bool {
    forall|i: int| 0 <= i < t.len() ==> #[trigger] t[i].span.start < usize::MAX
}

/// A recursive-descent parser over a token slice.
pub struct Parser<'a> {
    tokens: &'a [Token],
    pos: usize,
    source: &'a str,
    depth: usize,
}

impl<'a> Parser<'a> {
    /// The parsing environment this parser works in.
    pub closed spec fn env(&self) -> PEnv {
        penv(self.tokens@, self.source)
    }

    /// The index of the next token.
    pub closed spec fn position(&self) -> nat {
        self.pos as nat
    }

    /// The current nesting depth.
    pub closed spec fn nesting(&self) -> nat {
        self.depth as nat
    }

    /// The parser's state is consistent.
    pub closed spec fn wf(&self) -> bool {
        self.pos <= self.tokens@.len() && self.depth <= MAX_DEPTH && spans_ok(self.tokens@)
    }

    /// A parser at the first token, at depth 0.
    pub fn new(tokens: &'a [Token], source: &'a str) -> (p: Self)
        requires
            spans_ok(tokens@),
        ensures
            p.wf(),
            p.env() == penv(tokens@, source),
            p.position() == 0,
            p.nesting() == 0,
    {
        Parser { tokens, pos: 0, source, depth: 0 }
    }

    /// The next token, if any.
    pub fn peek(&self) -> (t: Option<&'a Token>)
        requires
            self.wf(),
        ensures
            match t {
                Some(x) => self.position() < self.env().toks.len() && x@ == self.env().toks[
                    self.position() as int
                ],
                None => self.position() >= self.env().toks.len(),
            },
    {
        let toks: &'a [Token] = self.tokens;
        if self.pos < toks.len() {
            Some(&toks[self.pos])
        } else {
            None
        }
    }

    /// Consume the next token.
    pub fn advance(&mut self) -> (t: &'a Token)
        requires
            old(self).wf(),
            old(self).position() < old(self).env().toks.len(),
        ensures
            final(self).wf(),
            final(self).env() == old(self).env(),
            final(self).nesting() == old(self).nesting(),
            final(self).position() == old(self).position() + 1,
            t@ == old(self).env().toks[old(self).position() as int],
    {
        let toks: &'a [Token] = self.tokens;
        let t = &toks[self.pos];
        self.pos += 1;
        t
    }

    /// Whether every token has been consumed.
    pub fn at_end(&self) -> (r: bool)
        ensures
            r == (self.position() >= self.env().toks.len()),
    {
        self.pos >= self.tokens.len()
    }

    /// Consume the next token if it has the same variant as `kind`.
    pub fn eat(&mut self, kind: &TokenKind) -> (r: bool)
        requires
            old(self).wf(),
        ensures
            final(self).wf(),
            final(self).env() == old(self).env(),
            final(self).nesting() == old(self).nesting(),
            r == (old(self).position() < old(self).env().toks.len() && same_variant(
                old(self).env().toks[old(self).position() as int].kind,
                kind@,
            )),
            final(self).position() == if r {
                old(self).position() + 1
            } else {
                old(self).position()
            },
    {
        if self.pos < self.tokens.len() && same_kind(&self.tokens[self.pos].kind, kind) {
            self.pos += 1;
            true
        } else {
            false
        }
    }

    /// The empty span at the end of the source.
    pub fn eof_span(&self) -> (s: Span)
        ensures
            s == eof_span_of(self.env()),
    {
        let pos = self.source.len();
        Span { start: pos, end: pos }
    }

    /// An error at `span` in this parser's source.
    pub fn err(&self, kind: DslErrorKind, span: Span) -> (e: DslError)
        ensures
            e@ == perr(self.env(), kind@, span),
    {
        DslError { kind, span, source: self.source.to_owned() }
    }

    /// `impl_expr := join_expr (('>' | '<') join_expr)*`
    pub fn parse_impl_expr(&mut self) -> (r: Result<Expr, DslError>)
        requires
            old(self).wf(),
        ensures
            final(self).env() == old(self).env(),
            match r {
                Ok(x) => p_impl(old(self).env(), old(self).position(), old(self).nesting()) == Ok::<
                    (ExprV, nat),
                    DslErrorV,
                >((x@, final(self).position())) && final(self).wf() && final(self).nesting()
                    == old(self).nesting() && old(self).position() < final(self).position(),
                Err(x) => p_impl(old(self).env(), old(self).position(), old(self).nesting())
                    == Err::<(ExprV, nat), DslErrorV>(x@),
            },
        decreases old(self).env().toks.len() - old(self).position(), 8int,
    {
        let ghost e = self.env();
        let ghost start = self.pos as nat;
        let ghost d = self.depth as nat;
        let mut left = self.parse_join_expr()?;
        loop
            invariant
                self.wf(),
                self.env() == e,
                e == old(self).env(),
                start == old(self).position(),
                d == old(self).nesting(),
                self.depth as nat == d,
                start < self.pos,
                p_impl(e, start, d) == p_impl_rest(e, self.pos as nat, d, left@),
            decreases self.tokens@.len() - self.pos,
        {
            let op = match self.peek() {
                Some(t) => match t.kind {
                    TokenKind::Gt => 2u8,
                    TokenKind::Lt => 3u8,
                    _ => 0u8,
                },
                None => 0u8,
            };
            if op == 0 {
                return Ok(left);
            }
            self.advance();
            let right = self.parse_join_expr()?;
            let span = Span { start: left.span().start, end: right.span().end };
            left = if op == 2 {
                Expr::Imply(Box::new(left), Box::new(right), span)
            } else {
                Expr::Coimply(Box::new(left), Box::new(right), span)
            };
        }
    }

    /// `join_expr := meet_expr ('|' meet_expr)*`
    pub fn parse_join_expr(&mut self) -> (r: Result<Expr, DslError>)
        requires
            old(self).wf(),
        ensures
            final(self).env() == old(self).env(),
            match r {
                Ok(x) => p_join(old(self).env(), old(self).position(), old(self).nesting()) == Ok::<
                    (ExprV, nat),
                    DslErrorV,
                >((x@, final(self).position())) && final(self).wf() && final(self).nesting()
                    == old(self).nesting() && old(self).position() < final(self).position(),
                Err(x) => p_join(old(self).env(), old(self).position(), old(self).nesting())
                    == Err::<(ExprV, nat), DslErrorV>(x@),
            },
        decreases old(self).env().toks.len() - old(self).position(), 6int,
    {
        let ghost e = self.env();
        let ghost start = self.pos as nat;
        let ghost d = self.depth as nat;
        let mut left = self.parse_meet_expr()?;
        loop
            invariant
                self.wf(),
                self.env() == e,
                e == old(self).env(),
                start == old(self).position(),
                d == old(self).nesting(),
                self.depth as nat == d,
                start < self.pos,
                p_join(e, start, d) == p_join_rest(e, self.pos as nat, d, left@),
            decreases self.tokens@.len() - self.pos,
        {
            if !self.eat(&TokenKind::Pipe) {
                return Ok(left);
            }
            let right = self.parse_meet_expr()?;
            let span = Span { start: left.span().start, end: right.span().end };
            left = Expr::Join(Box::new(left), Box::new(right), span);
        }
    }

    /// `meet_expr := unary ('&' unary)*`
    pub fn parse_meet_expr(&mut self) -> (r: Result<Expr, DslError>)
        requires
            old(self).wf(),
        ensures
            final(self).env() == old(self).env(),
            match r {
                Ok(x) => p_meet(old(self).env(), old(self).position(), old(self).nesting()) == Ok::<
                    (ExprV, nat),
                    DslErrorV,
                >((x@, final(self).position())) && final(self).wf() && final(self).nesting()
                    == old(self).nesting() && old(self).position() < final(self).position(),
                Err(x) => p_meet(old(self).env(), old(self).position(), old(self).nesting())
                    == Err::<(ExprV, nat), DslErrorV>(x@),
            },
        decreases old(self).env().toks.len() - old(self).position(), 4int,
    {
        let ghost e = self.env();
        let ghost start = self.pos as nat;
        let ghost d = self.depth as nat;
        let mut left = self.parse_unary()?;
        loop
            invariant
                self.wf(),
                self.env() == e,
                e == old(self).env(),
                start == old(self).position(),
                d == old(self).nesting(),
                self.depth as nat == d,
                start < self.pos,
                p_meet(e, start, d) == p_meet_rest(e, self.pos as nat, d, left@),
            decreases self.tokens@.len() - self.pos,
        {
            if !self.eat(&TokenKind::Ampersand) {
                return Ok(left);
            }
            let right = self.parse_unary()?;
            let span = Span { start: left.span().start, end: right.span().end };
            left = Expr::Meet(Box::new(left), Box::new(right), span);
        }
    }

    /// `unary := '!' unary | primary`
    pub fn parse_unary(&mut self) -> (r: Result<Expr, DslError>)
        requires
            old(self).wf(),
        ensures
            final(self).env() == old(self).env(),
            match r {
                Ok(x) => p_unary(old(self).env(), old(self).position(), old(self).nesting())
                    == Ok::<(ExprV, nat), DslErrorV>((x@, final(self).position())) && final(self).wf() && final(self).nesting() == old(self).nesting() && old(self).position()
                    < final(self).position(),
                Err(x) => p_unary(old(self).env(), old(self).position(), old(self).nesting())
                    == Err::<(ExprV, nat), DslErrorV>(x@),
            },
        decreases old(self).env().toks.len() - old(self).position(), 2int,
    {
        if let Some(tok) = self.peek() {
            if let TokenKind::Bang = tok.kind {
                let start = tok.span.start;
                self.advance();
                if self.depth + 1 > MAX_DEPTH {
                    let sp = Span { start, end: start + 1 };
                    return Err(self.err(DslErrorKind::NestingTooDeep, sp));
                }
                self.depth += 1;
                let inner = self.parse_unary()?;
                self.depth -= 1;
                let span = Span { start, end: inner.span().end };
                return Ok(Expr::Neg(Box::new(inner), span));
            }
        }
        self.parse_primary()
    }

    /// `primary := ident | '(' impl_expr ')'`
    pub fn parse_primary(&mut self) -> (r: Result<Expr, DslError>)
        requires
            old(self).wf(),
        ensures
            final(self).env() == old(self).env(),
            match r {
                Ok(x) => p_primary(old(self).env(), old(self).position(), old(self).nesting())
                    == Ok::<(ExprV, nat), DslErrorV>((x@, final(self).position())) && final(self).wf() && final(self).nesting() == old(self).nesting() && old(self).position()
                    < final(self).position(),
                Err(x) => p_primary(old(self).env(), old(self).position(), old(self).nesting())
                    == Err::<(ExprV, nat), DslErrorV>(x@),
            },
        decreases old(self).env().toks.len() - old(self).position(), 1int,
    {
        let tok = match self.peek() {
            Some(t) => t,
            None => {
                let sp = self.eof_span();
                return Err(self.err(DslErrorKind::UnexpectedEof, sp));
            },
        };
        match &tok.kind {
            TokenKind::Ident(text) => {
                let span = tok.span;
                let text = text.clone();
                self.advance();
                let chars = chars_of(text.as_str());
                match Grid::from_name(chars.as_slice()) {
                    Some(grid) => Ok(Expr::Atom(grid, span)),
                    None => Ok(Expr::Var(text, span)),
                }
            },
            TokenKind::LParen => {
                let start = tok.span.start;
                self.advance();
                if self.depth + 1 > MAX_DEPTH {
                    let sp = Span { start, end: start + 1 };
                    return Err(self.err(DslErrorKind::NestingTooDeep, sp));
                }
                self.depth += 1;
                let inner = self.parse_impl_expr()?;
                self.depth -= 1;
                if !self.eat(&TokenKind::RParen) {
                    let sp = Span { start, end: inner.span().end };
                    return Err(self.err(DslErrorKind::UnmatchedParen, sp));
                }
                Ok(inner)
            },
            _ => {
                let span = tok.span;
                let found = debug_token_kind(&tok.kind);
                Err(self.err(DslErrorKind::Expected { expected: "identifier or '('", found }, span))
            },
        }
    }
}

/// Whether two token kinds are the same variant.
pub open spec fn same_variant(a: TokenKindV, b: TokenKindV) -> bool {
    match (a, b) {
        (TokenKindV::Ident(_), TokenKindV::Ident(_)) => true,
        (TokenKindV::Ampersand, TokenKindV::Ampersand) => true,
        (TokenKindV::Pipe, TokenKindV::Pipe) => true,
        (TokenKindV::Gt, TokenKindV::Gt) => true,
        (TokenKindV::Lt, TokenKindV::Lt) => true,
        (TokenKindV::Bang, TokenKindV::Bang) => true,
        (TokenKindV::Tilde, TokenKindV::Tilde) => true,
        (TokenKindV::At, TokenKindV::At) => true,
        (TokenKindV::Colon, TokenKindV::Colon) => true,
        (TokenKindV::Int(_), TokenKindV::Int(_)) => true,
        (TokenKindV::LParen, TokenKindV::LParen) => true,
        (TokenKindV::RParen, TokenKindV::RParen) => true,
        _ => false,
    }
}

fn same_kind(a: &TokenKind, b: &TokenKind) -> (r: bool)
    ensures
        r == same_variant(a@, b@),
{
    match (a, b) {
        (TokenKind::Ident(_), TokenKind::Ident(_)) => true,
        (TokenKind::Ampersand, TokenKind::Ampersand) => true,
        (TokenKind::Pipe, TokenKind::Pipe) => true,
        (TokenKind::Gt, TokenKind::Gt) => true,
        (TokenKind::Lt, TokenKind::Lt) => true,
        (TokenKind::Bang, TokenKind::Bang) => true,
        (TokenKind::Tilde, TokenKind::Tilde) => true,
        (TokenKind::At, TokenKind::At) => true,
        (TokenKind::Colon, TokenKind::Colon) => true,
        (TokenKind::Int(_), TokenKind::Int(_)) => true,
        (TokenKind::LParen, TokenKind::LParen) => true,
        (TokenKind::RParen, TokenKind::RParen) => true,
        _ => false,
    }
}

/// Parse a whole token stream into an expression; tokens left over
/// after the expression are an error.
pub fn parse_tokens(tokens: &[Token], source: &str) -> (r: Result<Expr, DslError>)
    requires
        spans_ok(tokens@),
    ensures
        match r {
            Ok(x) => parse_tokens_spec(penv(tokens@, source)) == Ok::<ExprV, DslErrorV>(x@),
            Err(x) => parse_tokens_spec(penv(tokens@, source)) == Err::<ExprV, DslErrorV>(x@),
        },
{
    let mut parser = Parser::new(tokens, source);
    if tokens.len() == 0 {
        let sp = parser.eof_span();
        return Err(parser.err(DslErrorKind::EmptyInput, sp));
    }
    let expr = parser.parse_impl_expr()?;
    if !parser.at_end() {
        let tok = &tokens[parser.pos];
        let found = debug_token_kind(&tok.kind);
        return Err(parser.err(DslErrorKind::Expected { expected: "end of input", found }, tok.span));
    }
    Ok(expr)
}

} // verus!
