//! Single-pass lexer over the input's bytes. Whitespace between tokens
//! is skipped; identifiers and integers are read greedily; a `-`
//! immediately followed by a digit starts a negative integer.

use vstd::prelude::*;
use crate::dsl::ast::Span;
use crate::dsl::error::{DslError, DslErrorKind, DslErrorKindV, DslErrorV};
use crate::text::{parse_int, parse_int_spec, push_char, IntErrorKind};
use vstd::string::StringSliceAdditionalSpecFns;

verus! {

/// What a token is.
#[derive(Clone, Debug, Eq, PartialEq)]
pub enum TokenKind {
    /// A name: a grid atom (`T16`, `t8q`) or a channel variable
    /// (`kick`, `C1`).
    Ident(String),
    /// `&` meet
    Ampersand,
    /// `|` join
    Pipe,
    /// `>` implication
    Gt,
    /// `<` coimplication
    Lt,
    /// `!` negation
    Bang,
    /// `~` swing prefix
    Tilde,
    /// `@` offset prefix
    At,
    /// `:` separator
    Colon,
    /// Integer literal.
    Int(i64),
    /// `(`
    LParen,
    /// `)`
    RParen,
}

/// The mathematical form of a [`TokenKind`].
pub enum TokenKindV {
    Ident(Seq<char>),
    Ampersand,
    Pipe,
    Gt,
    Lt,
    Bang,
    Tilde,
    At,
    Colon,
    Int(i64),
    LParen,
    RParen,
}

impl View for TokenKind {
    type V = TokenKindV;

    open spec fn view(&self) -> TokenKindV {
        match self {
            TokenKind::Ident(s) => TokenKindV::Ident(s@),
            TokenKind::Ampersand => TokenKindV::Ampersand,
            TokenKind::Pipe => TokenKindV::Pipe,
            TokenKind::Gt => TokenKindV::Gt,
            TokenKind::Lt => TokenKindV::Lt,
            TokenKind::Bang => TokenKindV::Bang,
            TokenKind::Tilde => TokenKindV::Tilde,
            TokenKind::At => TokenKindV::At,
            TokenKind::Colon => TokenKindV::Colon,
            TokenKind::Int(n) => TokenKindV::Int(*n),
            TokenKind::LParen => TokenKindV::LParen,
            TokenKind::RParen => TokenKindV::RParen,
        }
    }
}

/// A token and the bytes it covers.
#[derive(Clone, Debug, Eq, PartialEq)]
pub struct Token {
    pub kind: TokenKind,
    pub span: Span,
}

/// The mathematical form of a [`Token`].
pub struct TokenV {
    pub kind: TokenKindV,
    pub span: Span,
}

impl View for Token {
    type V = TokenV;

    open spec fn view(&self) -> TokenV {
        TokenV { kind: self.kind@, span: self.span }
    }
}

/// The views of a token list.
pub open spec fn tokens_view(t: Seq<Token>) -> Seq<TokenV> {
    t.map_values(|x: Token| x@)
}

/// ASCII whitespace as the standard library defines it: space, tab,
/// line feed, form feed, carriage return.
pub open spec fn is_ws(c: u8) -> bool {
    c == 32 || c == 9 || c == 10 || c == 12 || c == 13
}

/// An ASCII decimal digit.
pub open spec fn is_dig(c: u8) -> bool {
    48 <= c <= 57
}

/// A byte that can start a name: an ASCII letter or `_`.
pub open spec fn is_ident_start(c: u8) -> bool {
    (65 <= c <= 90) || (97 <= c <= 122) || c == 95
}

/// A byte that can continue a name.
pub open spec fn is_ident_char(c: u8) -> bool {
    is_ident_start(c) || is_dig(c)
}

/// The first index at or after `pos` that is not a digit.
pub open spec fn digits_end(b: Seq<u8>, pos: nat) -> nat
    decreases b.len() - pos,
{
    if pos < b.len() && is_dig(b[pos as int]) {
        digits_end(b, pos + 1)
    } else {
        pos
    }
}

/// The first index at or after `pos` that cannot continue a name.
pub open spec fn ident_end(b: Seq<u8>, pos: nat) -> nat
    decreases b.len() - pos,
{
    if pos < b.len() && is_ident_char(b[pos as int]) {
        ident_end(b, pos + 1)
    } else {
        pos
    }
}

/// ASCII bytes read as characters.
pub open spec fn byte_chars(b: Seq<u8>) -> Seq<char> {
    b.map_values(|x: u8| x as char)
}

/// The one-byte token a punctuation byte stands for.
pub open spec fn punct(c: u8) -> Option<TokenKindV> {
    if c == 38 {
        Some(TokenKindV::Ampersand)
    } else if c == 124 {
        Some(TokenKindV::Pipe)
    } else if c == 62 {
        Some(TokenKindV::Gt)
    } else if c == 60 {
        Some(TokenKindV::Lt)
    } else if c == 33 {
        Some(TokenKindV::Bang)
    } else if c == 126 {
        Some(TokenKindV::Tilde)
    } else if c == 64 {
        Some(TokenKindV::At)
    } else if c == 58 {
        Some(TokenKindV::Colon)
    } else if c == 40 {
        Some(TokenKindV::LParen)
    } else if c == 41 {
        Some(TokenKindV::RParen)
    } else {
        None
    }
}

/// An error at `[start, end)` of `src`.
pub open spec fn err_at(kind: DslErrorKindV, start: nat, end: nat, src: Seq<char>) -> DslErrorV {
    DslErrorV { kind, span: Span { start: start as usize, end: end as usize }, source: src }
}

/// Tokenize bytes `b[pos..]`, appending to the tokens `acc` already
/// read; errors point into `src`.
pub open spec fn lex_from(b: Seq<u8>, pos: nat, acc: Seq<TokenV>, src: Seq<char>) -> Result<
    Seq<TokenV>,
    DslErrorV,
>
    decreases b.len() - pos,
{
    if pos >= b.len() {
        Ok(acc)
    } else if is_ws(b[pos as int]) {
        lex_from(b, pos + 1, acc, src)
    } else if punct(b[pos as int]) is Some {
        let t = TokenV {
            kind: punct(b[pos as int])->0,
            span: Span { start: pos as usize, end: (pos + 1) as usize },
        };
        lex_from(b, pos + 1, acc.push(t), src)
    } else if b[pos as int] == 45 && pos + 1 < b.len() && is_dig(b[pos + 1int]) {
        let e = digits_end(b, pos + 1);
        let d = byte_chars(b.subrange(pos + 1int, e as int));
        match parse_int_spec(d, 0, i64::MAX as int) {
            Ok(v) => {
                let t = TokenV {
                    kind: TokenKindV::Int((-v) as i64),
                    span: Span { start: pos as usize, end: e as usize },
                };
                if pos < e <= b.len() {
                    lex_from(b, e, acc.push(t), src)
                } else {
                    Ok(acc)
                }
            },
            Err(_) => Err(
                err_at(
                    DslErrorKindV::Expected { expected: "integer"@, found: seq!['-'] + d },
                    pos,
                    e,
                    src,
                ),
            ),
        }
    } else if is_dig(b[pos as int]) {
        let e = digits_end(b, pos);
        let d = byte_chars(b.subrange(pos as int, e as int));
        match parse_int_spec(d, 0, i64::MAX as int) {
            Ok(v) => {
                let t = TokenV {
                    kind: TokenKindV::Int(v as i64),
                    span: Span { start: pos as usize, end: e as usize },
                };
                if pos < e <= b.len() {
                    lex_from(b, e, acc.push(t), src)
                } else {
                    Ok(acc)
                }
            },
            Err(_) => Err(
                err_at(DslErrorKindV::Expected { expected: "integer"@, found: d }, pos, e, src),
            ),
        }
    } else if is_ident_start(b[pos as int]) {
        let e = ident_end(b, pos + 1);
        let t = TokenV {
            kind: TokenKindV::Ident(byte_chars(b.subrange(pos as int, e as int))),
            span: Span { start: pos as usize, end: e as usize },
        };
        if pos < e <= b.len() {
            lex_from(b, e, acc.push(t), src)
        } else {
            Ok(acc)
        }
    } else {
        Err(err_at(DslErrorKindV::UnexpectedChar(b[pos as int] as char), pos, pos + 1, src))
    }
}

/// The tokens of `input`, or the first lexical error.
pub open spec fn tokenize_spec(input: &str) -> Result<Seq<TokenV>, DslErrorV> {
    lex_from(input.spec_bytes(), 0, Seq::empty(), input@)
}

proof fn lemma_digits_end_bounds(b: Seq<u8>, pos: nat)
    requires
        pos <= b.len(),
    ensures
        pos <= digits_end(b, pos) <= b.len(),
        forall|i: int| pos <= i < digits_end(b, pos) ==> is_dig(#[trigger] b[i]),
    decreases b.len() - pos,
{
    if pos < b.len() && is_dig(b[pos as int]) {
        lemma_digits_end_bounds(b, pos + 1);
    }
}

proof fn lemma_ident_end_bounds(b: Seq<u8>, pos: nat)
    requires
        pos <= b.len(),
    ensures
        pos <= ident_end(b, pos) <= b.len(),
    decreases b.len() - pos,
{
    if pos < b.len() && is_ident_char(b[pos as int]) {
        lemma_ident_end_bounds(b, pos + 1);
    }
}

/// Build a token.
pub fn tok(kind: TokenKind, start: usize, end: usize) -> (t: Token)
    ensures
        t.kind == kind,
        t.span == (Span { start, end }),
{
    Token { kind, span: Span { start, end } }
}

fn scan_digits(b: &[u8], pos: usize) -> (e: usize)
    requires
        pos <= b@.len(),
    ensures
        e == digits_end(b@, pos as nat),
{
    let mut i = pos;
    while i < b.len() && b[i] >= 48 && b[i] <= 57
        invariant
            pos <= i <= b@.len(),
            digits_end(b@, pos as nat) == digits_end(b@, i as nat),
        decreases b.len() - i,
    {
        i += 1;
    }
    i
}

fn scan_ident(b: &[u8], pos: usize) -> (e: usize)
    requires
        pos <= b@.len(),
    ensures
        e == ident_end(b@, pos as nat),
{
    let mut i = pos;
    while i < b.len() && ((b[i] >= 65 && b[i] <= 90) || (b[i] >= 97 && b[i] <= 122) || b[i] == 95
        || (b[i] >= 48 && b[i] <= 57))
        invariant
            pos <= i <= b@.len(),
            ident_end(b@, pos as nat) == ident_end(b@, i as nat),
        decreases b.len() - i,
    {
        i += 1;
    }
    i
}

fn bytes_to_chars(b: &[u8], from: usize, to: usize) -> (v: Vec<char>)
    requires
        from <= to <= b@.len(),
    ensures
        v@ == byte_chars(b@.subrange(from as int, to as int)),
{
    let mut v: Vec<char> = Vec::new();
    let mut i = from;
    while i < to
        invariant
            from <= i <= to <= b@.len(),
            v@ == byte_chars(b@.subrange(from as int, i as int)),
        decreases to - i,
    {
        v.push(b[i] as char);
        i += 1;
        assert(v@ =~= byte_chars(b@.subrange(from as int, i as int)));
    }
    v
}

fn string_of_chars(v: &Vec<char>) -> (s: String)
    ensures
        s@ == v@,
{
    let mut s = String::new();
    let mut i: usize = 0;
    while i < v.len()
        invariant
            0 <= i <= v@.len(),
            s@ == v@.subrange(0, i as int),
        decreases v.len() - i,
    {
        push_char(&mut s, v[i]);
        i += 1;
        assert(s@ =~= v@.subrange(0, i as int));
    }
    assert(v@.subrange(0, v@.len() as int) =~= v@);
    s
}

fn punct_of(c: u8) -> (k: Option<TokenKind>)
    ensures
        match k {
            Some(t) => punct(c) == Some(t@),
            None => punct(c) is None,
        },
{
    if c == 38 {
        Some(TokenKind::Ampersand)
    } else if c == 124 {
        Some(TokenKind::Pipe)
    } else if c == 62 {
        Some(TokenKind::Gt)
    } else if c == 60 {
        Some(TokenKind::Lt)
    } else if c == 33 {
        Some(TokenKind::Bang)
    } else if c == 126 {
        Some(TokenKind::Tilde)
    } else if c == 64 {
        Some(TokenKind::At)
    } else if c == 58 {
        Some(TokenKind::Colon)
    } else if c == 40 {
        Some(TokenKind::LParen)
    } else if c == 41 {
        Some(TokenKind::RParen)
    } else {
        None
    }
}

/// Tokenize `input`.
pub fn tokenize(input: &str) -> (r: Result<Vec<Token>, DslError>)
    ensures
        match r {
            Ok(t) => tokenize_spec(input) == Ok::<Seq<TokenV>, DslErrorV>(tokens_view(t@))
                && forall|i: int| 0 <= i < t@.len() ==> #[trigger] t@[i].span.start < usize::MAX,
            Err(e) => tokenize_spec(input) == Err::<Seq<TokenV>, DslErrorV>(e@),
        },
{
    let b = input.as_bytes();
    let ghost bs = input.spec_bytes();
    let mut pos: usize = 0;
    let mut tokens: Vec<Token> = Vec::new();
    let blen = b.len();
    assert(tokens_view(tokens@) =~= Seq::<TokenV>::empty());
    while pos < b.len()
        invariant
            b@ == bs,
            bs == input.spec_bytes(),
            0 <= pos <= b@.len(),
            tokenize_spec(input) == lex_from(bs, pos as nat, tokens_view(tokens@), input@),
            forall|i: int| 0 <= i < tokens@.len() ==> #[trigger] tokens@[i].span.start < bs.len(),
            blen == bs.len(),
        decreases b.len() - pos,
    {
        let c = b[pos];
        let start = pos;
        let ghost acc = tokens_view(tokens@);
        if c == 32 || c == 9 || c == 10 || c == 12 || c == 13 {
            pos += 1;
        } else if let Some(k) = punct_of(c) {
            tokens.push(tok(k, start, start + 1));
            assert(tokens_view(tokens@) =~= acc.push(tokens@[tokens@.len() - 1]@));
            pos += 1;
        } else if c == 45 && pos + 1 < b.len() && b[pos + 1] >= 48 && b[pos + 1] <= 57 {
            let e = scan_digits(b, pos + 1);
            proof {
                lemma_digits_end_bounds(bs, (pos + 1) as nat);
            }
            let d = bytes_to_chars(b, pos + 1, e);
            match parse_int(d.as_slice(), 0, 0x7fff_ffff_ffff_ffff) {
                Ok(v) => {
                    let n = v as i64;
                    tokens.push(tok(TokenKind::Int(-n), start, e));
                    assert(tokens_view(tokens@) =~= acc.push(tokens@[tokens@.len() - 1]@));
                    pos = e;
                },
                Err(_) => {
                    let mut found = String::new();
                    push_char(&mut found, '-');
                    let ds = string_of_chars(&d);
                    crate::text::push_str(&mut found, ds.as_str());
                    let err = DslError {
                        kind: DslErrorKind::Expected { expected: "integer", found },
                        span: Span { start, end: e },
                        source: input.to_owned(),
                    };
                    assert(err@.kind == (DslErrorKindV::Expected {
                        expected: "integer"@,
                        found: seq!['-'] + d@,
                    }));
                    return Err(err);
                },
            }
        } else if c >= 48 && c <= 57 {
            let e = scan_digits(b, pos);
            proof {
                lemma_digits_end_bounds(bs, pos as nat);
            }
            let d = bytes_to_chars(b, pos, e);
            match parse_int(d.as_slice(), 0, 0x7fff_ffff_ffff_ffff) {
                Ok(v) => {
                    tokens.push(tok(TokenKind::Int(v as i64), start, e));
                    assert(tokens_view(tokens@) =~= acc.push(tokens@[tokens@.len() - 1]@));
                    pos = e;
                },
                Err(_) => {
                    let found = string_of_chars(&d);
                    let err = DslError {
                        kind: DslErrorKind::Expected { expected: "integer", found },
                        span: Span { start, end: e },
                        source: input.to_owned(),
                    };
                    return Err(err);
                },
            }
        } else if (c >= 65 && c <= 90) || (c >= 97 && c <= 122) || c == 95 {
            let e = scan_ident(b, pos + 1);
            proof {
                lemma_ident_end_bounds(bs, (pos + 1) as nat);
            }
            let d = bytes_to_chars(b, pos, e);
            let text = string_of_chars(&d);
            tokens.push(tok(TokenKind::Ident(text), start, e));
            assert(tokens_view(tokens@) =~= acc.push(tokens@[tokens@.len() - 1]@));
            pos = e;
        } else {
            let err = DslError {
                kind: DslErrorKind::UnexpectedChar(c as char),
                span: Span { start, end: start + 1 },
                source: input.to_owned(),
            };
            return Err(err);
        }
    }
    Ok(tokens)
}

} // verus!
