//! Printing an expression and parsing the text back denotes the same
//! grid: the printer's parentheses are exactly those the parser's
//! precedence and left associativity need.

use vstd::prelude::*;
use crate::dsl::ast::{ExprV, Span};
use crate::dsl::display::{display_v, prec_v};
use crate::dsl::error::DslErrorV;
use crate::dsl::eval::eval_v;
use crate::dsl::parser::{at_tag, p_impl, p_impl_rest, p_join, p_join_rest, p_meet, p_meet_rest, p_primary, p_unary, PEnv, MAX_DEPTH};
use crate::dsl::lexer::{
    byte_chars, ident_end, is_ident_char, is_ident_start, lex_from, punct, TokenKindV, TokenV,
};
use crate::notation::{grid_from_name, grid_name, grid_suffix, lemma_grid_name_round_trip};
use crate::text::{is_digit, lemma_nat_decimal_digits, nat_decimal};
use crate::time::Grid;
use crate::dsl::parse_spec;
use crate::dsl::parser::parse_tokens_spec;
use vstd::utf8::{encode_utf8, is_ascii_chars, is_ascii_chars_encode_utf8};

verus! {

/// A character that can start a name: an ASCII letter or `_`.
pub open spec fn name_start(c: char) -> bool {
    ('a' <= c && c <= 'z') || ('A' <= c && c <= 'Z') || c == '_'
}

/// A character that can continue a name: also an ASCII digit.
pub open spec fn name_char(c: char) -> bool {
    name_start(c) || ('0' <= c && c <= '9')
}

/// A text that the lexer reads as exactly one name.
pub open spec fn is_name(s: Seq<char>) -> bool {
    &&& s.len() > 0
    &&& name_start(s[0])
    &&& forall|i: int| 0 <= i < s.len() ==> name_char(#[trigger] s[i])
}

/// Every variable of `e` is a name that names no grid.
pub open spec fn vars_ok(e: ExprV) -> bool
    decreases e,
{
    match e {
        ExprV::Atom(..) => true,
        ExprV::Var(n, _) => is_name(n) && grid_from_name(n) is None,
        ExprV::Neg(a, _) => vars_ok(*a),
        ExprV::Meet(a, b, _) => vars_ok(*a) && vars_ok(*b),
        ExprV::Join(a, b, _) => vars_ok(*a) && vars_ok(*b),
        ExprV::Imply(a, b, _) => vars_ok(*a) && vars_ok(*b),
        ExprV::Coimply(a, b, _) => vars_ok(*a) && vars_ok(*b),
    }
}

/// The larger of two naturals.
pub open spec fn max_nat(a: nat, b: nat) -> nat {
    if a >= b {
        a
    } else {
        b
    }
}

/// How deeply negations and parentheses nest in the text of `e`
/// printed at binding strength `parent`.
pub open spec fn nest(e: ExprV, parent: nat) -> nat
    decreases e,
{
    let inner = match e {
        ExprV::Atom(..) => 0,
        ExprV::Var(..) => 0,
        ExprV::Neg(a, _) => 1 + nest(*a, 3),
        ExprV::Meet(a, b, _) => max_nat(nest(*a, 2), nest(*b, 3)),
        ExprV::Join(a, b, _) => max_nat(nest(*a, 1), nest(*b, 2)),
        ExprV::Imply(a, b, _) => max_nat(nest(*a, 0), nest(*b, 1)),
        ExprV::Coimply(a, b, _) => max_nat(nest(*a, 0), nest(*b, 1)),
    };
    if prec_v(e) < parent {
        1 + inner
    } else {
        inner
    }
}

/// The token kinds of the text of `e` printed at strength `parent`.
pub open spec fn kinds_of(e: ExprV, parent: nat) -> Seq<TokenKindV>
    decreases e,
{
    let body = match e {
        ExprV::Atom(g, _) => seq![TokenKindV::Ident(grid_name(g))],
        ExprV::Var(n, _) => seq![TokenKindV::Ident(n)],
        ExprV::Neg(a, _) => seq![TokenKindV::Bang] + kinds_of(*a, 3),
        ExprV::Meet(a, b, _) => kinds_of(*a, 2) + seq![TokenKindV::Ampersand] + kinds_of(*b, 3),
        ExprV::Join(a, b, _) => kinds_of(*a, 1) + seq![TokenKindV::Pipe] + kinds_of(*b, 2),
        ExprV::Imply(a, b, _) => kinds_of(*a, 0) + seq![TokenKindV::Gt] + kinds_of(*b, 1),
        ExprV::Coimply(a, b, _) => kinds_of(*a, 0) + seq![TokenKindV::Lt] + kinds_of(*b, 1),
    };
    if prec_v(e) < parent {
        seq![TokenKindV::LParen] + body + seq![TokenKindV::RParen]
    } else {
        body
    }
}

/// The kinds of a token list.
pub open spec fn kinds(t: Seq<TokenV>) -> Seq<TokenKindV> {
    t.map_values(|x: TokenV| x.kind)
}

/// ASCII characters as bytes.
pub open spec fn ascii_bytes(s: Seq<char>) -> Seq<u8> {
    s.map_values(|c: char| c as u8)
}

/// A grid's printed name is a name.
pub proof fn lemma_grid_name_is_name(g: Grid)
    ensures
        is_name(grid_name(g)),
{
    let d = nat_decimal(crate::notation::grid_num(g));
    lemma_nat_decimal_digits(crate::notation::grid_num(g));
    let s = grid_name(g);
    assert forall|i: int| 0 <= i < s.len() implies name_char(#[trigger] s[i]) by {
        if i == 0 {
        } else if i < 1 + d.len() {
            assert(s[i] == d[i - 1]);
            assert(is_digit(d[i - 1]));
        } else {
            assert(s[i] == grid_suffix(g)[i - 1 - d.len()]);
        }
    }
}

/// The name a byte run reads as, one byte per character.
proof fn lemma_ident_end(b: Seq<u8>, i: nat, end: nat)
    requires
        i <= end <= b.len(),
        forall|j: int| i <= j < end ==> is_ident_char(#[trigger] b[j]),
        end == b.len() || !is_ident_char(b[end as int]),
    ensures
        ident_end(b, i) == end,
    decreases end - i,
{
    if i < end {
        lemma_ident_end(b, i + 1, end);
    }
}

/// A name character's byte continues an identifier, and reads back as
/// the character.
proof fn lemma_name_byte(c: char)
    requires
        name_char(c),
    ensures
        is_ident_char(c as u8),
        (c as u8) as char == c,
        name_start(c) ==> is_ident_start(c as u8),
        name_start(c) ==> punct(c as u8) is None,
        !(c as u8 == 45),
        !crate::dsl::lexer::is_ws(c as u8),
        name_start(c) ==> !crate::dsl::lexer::is_dig(c as u8),
{
    let u = c as u32;
    assert((c as u8) as u32 == u) by {
        assert(u < 128);
    }
}

/// Lexing a name at `pos` reads one identifier token.
proof fn lemma_lex_name(b: Seq<u8>, pos: nat, acc: Seq<TokenV>, src: Seq<char>, name: Seq<char>) -> (t:
    TokenV)
    requires
        is_name(name),
        pos + name.len() <= b.len(),
        b.subrange(pos as int, pos as int + name.len()) == ascii_bytes(name),
        pos + name.len() == b.len() || !is_ident_char(b[pos as int + name.len()]),
    ensures
        t.kind == TokenKindV::Ident(name),
        lex_from(b, pos, acc, src) == lex_from(b, pos + name.len(), acc.push(t), src),
{
    let end = pos + name.len();
    assert forall|j: int| pos <= j < end implies is_ident_char(#[trigger] b[j]) by {
        assert(b[j] == b.subrange(pos as int, end as int)[j - pos]);
        lemma_name_byte(name[j - pos]);
    }
    assert(b[pos as int] == b.subrange(pos as int, end as int)[0]);
    lemma_name_byte(name[0]);
    lemma_ident_end(b, pos + 1, end);
    assert(byte_chars(b.subrange(pos as int, end as int)) =~= name) by {
        assert forall|j: int| 0 <= j < name.len() implies #[trigger] byte_chars(
            b.subrange(pos as int, end as int),
        )[j] == name[j] by {
            lemma_name_byte(name[j]);
        }
    }
    TokenV {
        kind: TokenKindV::Ident(name),
        span: Span { start: pos as usize, end: end as usize },
    }
}

/// Lexing a punctuation byte at `pos` reads its one-byte token.
proof fn lemma_lex_punct(b: Seq<u8>, pos: nat, acc: Seq<TokenV>, src: Seq<char>) -> (t: TokenV)
    requires
        pos < b.len(),
        punct(b[pos as int]) is Some,
    ensures
        t.kind == punct(b[pos as int])->0,
        lex_from(b, pos, acc, src) == lex_from(b, pos + 1, acc.push(t), src),
{
    TokenV {
        kind: punct(b[pos as int])->0,
        span: Span { start: pos as usize, end: (pos + 1) as usize },
    }
}

/// The text of `e` at any strength is made of name characters and
/// the operator and parenthesis characters.
pub open spec fn text_char(c: char) -> bool {
    name_char(c) || c == '(' || c == ')' || c == '!' || c == '&' || c == '|' || c == '>' || c == '<'
}

/// Bytes that hold the ASCII form of `x + y` hold `x`, then `y`.
proof fn lemma_ascii_split(b: Seq<u8>, pos: nat, x: Seq<char>, y: Seq<char>)
    requires
        pos + x.len() + y.len() <= b.len(),
        b.subrange(pos as int, pos as int + x.len() + y.len()) == ascii_bytes(x + y),
    ensures
        b.subrange(pos as int, pos as int + x.len()) == ascii_bytes(x),
        b.subrange(pos as int + x.len(), pos as int + x.len() + y.len()) == ascii_bytes(y),
{
    let whole = b.subrange(pos as int, pos as int + x.len() + y.len());
    assert forall|j: int| 0 <= j < x.len() implies #[trigger] b.subrange(pos as int, pos as int + x.len())[j]
        == ascii_bytes(x)[j] by {
        assert(b.subrange(pos as int, pos as int + x.len())[j] == whole[j]);
        assert((x + y)[j] == x[j]);
    }
    assert forall|j: int| 0 <= j < y.len() implies #[trigger] b.subrange(
        pos as int + x.len(),
        pos as int + x.len() + y.len(),
    )[j] == ascii_bytes(y)[j] by {
        assert(b.subrange(pos as int + x.len(), pos as int + x.len() + y.len())[j] == whole[x.len() + j]);
        assert((x + y)[x.len() + j] == y[j]);
    }
    assert(b.subrange(pos as int, pos as int + x.len()) =~= ascii_bytes(x));
    assert(b.subrange(pos as int + x.len(), pos as int + x.len() + y.len()) =~= ascii_bytes(y));
}

/// The bytes of `x op y`: `x`, the operator byte, `y`.
proof fn lemma_binary_text(b: Seq<u8>, pos: nat, x: Seq<char>, op: char, y: Seq<char>)
    requires
        pos + (x + seq![op] + y).len() <= b.len(),
        b.subrange(pos as int, pos as int + (x + seq![op] + y).len()) == ascii_bytes(x + seq![op] + y),
        op == '&' || op == '|' || op == '>' || op == '<',
    ensures
        b.subrange(pos as int, pos as int + x.len()) == ascii_bytes(x),
        b[pos as int + x.len()] == op as u8,
        !is_ident_char(b[pos as int + x.len()]),
        punct(b[pos as int + x.len()]) is Some,
        punct(b[pos as int + x.len()])->0 == (if op == '&' {
            TokenKindV::Ampersand
        } else if op == '|' {
            TokenKindV::Pipe
        } else if op == '>' {
            TokenKindV::Gt
        } else {
            TokenKindV::Lt
        }),
        b.subrange(pos as int + x.len() + 1, pos as int + x.len() + 1 + y.len()) == ascii_bytes(y),
{
    lemma_ascii_split(b, pos, x + seq![op], y);
    lemma_ascii_split(b, pos, x, seq![op]);
    assert(b[pos as int + x.len()] == b.subrange(pos as int + x.len(), pos as int + x.len() + 1)[0]);
}

/// Three lexing steps in a row make one.
proof fn lemma_lex_chain(
    b: Seq<u8>,
    p0: nat,
    p1: nat,
    p2: nat,
    acc: Seq<TokenV>,
    src: Seq<char>,
    ta: Seq<TokenV>,
    t: TokenV,
    tc: Seq<TokenV>,
)
    requires
        lex_from(b, p0, acc, src) == lex_from(b, p1, acc + ta, src),
        lex_from(b, p1, acc + ta, src) == lex_from(b, p1 + 1, (acc + ta).push(t), src),
        lex_from(b, p1 + 1, (acc + ta).push(t), src) == lex_from(b, p2, (acc + ta).push(t) + tc, src),
    ensures
        lex_from(b, p0, acc, src) == lex_from(b, p2, acc + (ta + seq![t] + tc), src),
        kinds(ta + seq![t] + tc) == kinds(ta) + seq![t.kind] + kinds(tc),
{
    assert((acc + ta).push(t) + tc =~= acc + (ta + seq![t] + tc));
    assert(kinds(ta + seq![t] + tc) =~= kinds(ta) + seq![t.kind] + kinds(tc));
}

/// What the lexer needs of the text of `e` at strength `parent` laid
/// at `pos` in `b`: it is there, and no name character follows it.
pub open spec fn laid(b: Seq<u8>, pos: nat, e: ExprV, parent: nat) -> bool {
    &&& pos + display_v(e, parent).len() <= b.len()
    &&& b.subrange(pos as int, pos as int + display_v(e, parent).len()) == ascii_bytes(
        display_v(e, parent),
    )
    &&& (pos + display_v(e, parent).len() == b.len() || !is_ident_char(
        b[pos as int + display_v(e, parent).len()],
    ))
}

/// Lexing the text of `e`, printed at strength `parent`, reads the
/// tokens whose kinds [`kinds_of`] lists, provided no name character
/// follows it.
pub proof fn lemma_lex_display(
    b: Seq<u8>,
    pos: nat,
    acc: Seq<TokenV>,
    src: Seq<char>,
    e: ExprV,
    parent: nat,
) -> (toks: Seq<TokenV>)
    requires
        vars_ok(e),
        laid(b, pos, e, parent),
    ensures
        kinds(toks) == kinds_of(e, parent),
        lex_from(b, pos, acc, src) == lex_from(b, pos + display_v(e, parent).len(), acc + toks, src),
    decreases e, parent + 1,
{
    if prec_v(e) < parent {
        let d = display_v(e, parent);
        let n = d.len();
        let inner = display_v(e, 0);
        assert(d =~= seq!['('] + inner + seq![')']);
        assert(b[pos as int] == b.subrange(pos as int, pos as int + n)[0]);
        let t0 = lemma_lex_punct(b, pos, acc, src);
        assert(b.subrange(pos as int + 1, pos as int + 1 + inner.len()) =~= ascii_bytes(inner)) by {
            assert forall|j: int| 0 <= j < inner.len() implies #[trigger] b.subrange(
                pos as int + 1,
                pos as int + 1 + inner.len(),
            )[j] == ascii_bytes(inner)[j] by {
                assert(b.subrange(pos as int + 1, pos as int + 1 + inner.len())[j] == b.subrange(
                    pos as int,
                    pos as int + n,
                )[j + 1]);
            }
        }
        assert(b[pos as int + 1 + inner.len()] == b.subrange(pos as int, pos as int + n)[n - 1]);
        let ti = lemma_lex_display(b, pos + 1, acc.push(t0), src, e, 0);
        let t1 = lemma_lex_punct(b, pos + 1 + inner.len(), acc.push(t0) + ti, src);
        let toks = seq![t0] + ti + seq![t1];
        assert((acc.push(t0) + ti).push(t1) =~= acc + toks);
        assert(pos + 1 + inner.len() + 1 == pos + n);
        assert(kinds(toks) =~= seq![TokenKindV::LParen] + kinds(ti) + seq![TokenKindV::RParen]);
        toks
    } else {
        lemma_lex_body(b, pos, acc, src, e, parent)
    }
}

/// As [`lemma_lex_display`], where the text has no outer parentheses.
#[verifier::rlimit(60)]
#[verifier::spinoff_prover]
proof fn lemma_lex_body(b: Seq<u8>, pos: nat, acc: Seq<TokenV>, src: Seq<char>, e: ExprV, parent: nat) -> (toks:
    Seq<TokenV>)
    requires
        vars_ok(e),
        laid(b, pos, e, parent),
        prec_v(e) >= parent,
    ensures
        kinds(toks) == kinds_of(e, parent),
        lex_from(b, pos, acc, src) == lex_from(b, pos + display_v(e, parent).len(), acc + toks, src),
    decreases e, 0nat,
{
    let d = display_v(e, parent);
    match e {
        ExprV::Atom(g, _) => {
            lemma_grid_name_is_name(g);
            let t = lemma_lex_name(b, pos, acc, src, grid_name(g));
            assert(kinds(seq![t]) =~= seq![t.kind]);
            assert(acc.push(t) =~= acc + seq![t]);
            seq![t]
        },
        ExprV::Var(name, _) => {
            let t = lemma_lex_name(b, pos, acc, src, name);
            assert(kinds(seq![t]) =~= seq![t.kind]);
            assert(acc.push(t) =~= acc + seq![t]);
            seq![t]
        },
        ExprV::Neg(a, _) => {
            let da = display_v(*a, 3);
            assert(d =~= seq!['!'] + da);
            lemma_ascii_split(b, pos, seq!['!'], da);
            assert(b[pos as int] == b.subrange(pos as int, pos as int + 1)[0]);
            let t0 = lemma_lex_punct(b, pos, acc, src);
            let ta = lemma_lex_display(b, pos + 1, acc.push(t0), src, *a, 3);
            assert(acc.push(t0) + ta =~= acc + (seq![t0] + ta));
            assert(kinds(seq![t0] + ta) =~= seq![TokenKindV::Bang] + kinds(ta));
            seq![t0] + ta
        },
        ExprV::Meet(a, c, _) => {
            let da = display_v(*a, 2);
            let dc = display_v(*c, 3);
            assert(d =~= da + seq!['&'] + dc);
            lemma_binary_text(b, pos, da, '&', dc);
            let ta = lemma_lex_display(b, pos, acc, src, *a, 2);
            let t = lemma_lex_punct(b, pos + da.len(), acc + ta, src);
            let tc = lemma_lex_display(b, pos + da.len() + 1, (acc + ta).push(t), src, *c, 3);
            lemma_lex_chain(b, pos, pos + da.len(), pos + d.len(), acc, src, ta, t, tc);
            ta + seq![t] + tc
        },
        ExprV::Join(a, c, _) => {
            let da = display_v(*a, 1);
            let dc = display_v(*c, 2);
            assert(d =~= da + seq!['|'] + dc);
            lemma_binary_text(b, pos, da, '|', dc);
            let ta = lemma_lex_display(b, pos, acc, src, *a, 1);
            let t = lemma_lex_punct(b, pos + da.len(), acc + ta, src);
            let tc = lemma_lex_display(b, pos + da.len() + 1, (acc + ta).push(t), src, *c, 2);
            lemma_lex_chain(b, pos, pos + da.len(), pos + d.len(), acc, src, ta, t, tc);
            ta + seq![t] + tc
        },
        ExprV::Imply(a, c, _) => {
            let da = display_v(*a, 0);
            let dc = display_v(*c, 1);
            assert(d =~= da + seq!['>'] + dc);
            lemma_binary_text(b, pos, da, '>', dc);
            let ta = lemma_lex_display(b, pos, acc, src, *a, 0);
            let t = lemma_lex_punct(b, pos + da.len(), acc + ta, src);
            let tc = lemma_lex_display(b, pos + da.len() + 1, (acc + ta).push(t), src, *c, 1);
            lemma_lex_chain(b, pos, pos + da.len(), pos + d.len(), acc, src, ta, t, tc);
            ta + seq![t] + tc
        },
        ExprV::Coimply(a, c, _) => {
            let da = display_v(*a, 0);
            let dc = display_v(*c, 1);
            assert(d =~= da + seq!['<'] + dc);
            lemma_binary_text(b, pos, da, '<', dc);
            let ta = lemma_lex_display(b, pos, acc, src, *a, 0);
            let t = lemma_lex_punct(b, pos + da.len(), acc + ta, src);
            let tc = lemma_lex_display(b, pos + da.len() + 1, (acc + ta).push(t), src, *c, 1);
            lemma_lex_chain(b, pos, pos + da.len(), pos + d.len(), acc, src, ta, t, tc);
            ta + seq![t] + tc
        },
    }
}

/// An expression with every span cleared: what parsing determines
/// besides positions.
pub open spec fn strip(e: ExprV) -> ExprV
    decreases e,
{
    let z = Span { start: 0, end: 0 };
    match e {
        ExprV::Atom(g, _) => ExprV::Atom(g, z),
        ExprV::Var(n, _) => ExprV::Var(n, z),
        ExprV::Neg(a, _) => ExprV::Neg(Box::new(strip(*a)), z),
        ExprV::Meet(a, b, _) => ExprV::Meet(Box::new(strip(*a)), Box::new(strip(*b)), z),
        ExprV::Join(a, b, _) => ExprV::Join(Box::new(strip(*a)), Box::new(strip(*b)), z),
        ExprV::Imply(a, b, _) => ExprV::Imply(Box::new(strip(*a)), Box::new(strip(*b)), z),
        ExprV::Coimply(a, b, _) => ExprV::Coimply(Box::new(strip(*a)), Box::new(strip(*b)), z),
    }
}

/// The tokens of `e` from `pos` have the kinds `ks`.
pub open spec fn kinds_at(e: PEnv, pos: nat, ks: Seq<TokenKindV>) -> bool {
    &&& pos + ks.len() <= e.toks.len()
    &&& forall|i: int| 0 <= i < ks.len() ==> #[trigger] e.toks[pos + i].kind == ks[i]
}

/// Kinds laid out as `x + y` are `x`, then `y`.
proof fn lemma_kinds_split(e: PEnv, pos: nat, x: Seq<TokenKindV>, y: Seq<TokenKindV>)
    requires
        kinds_at(e, pos, x + y),
    ensures
        kinds_at(e, pos, x),
        kinds_at(e, pos + x.len(), y),
{
    assert forall|i: int| 0 <= i < x.len() implies #[trigger] e.toks[pos + i].kind == x[i] by {
        assert((x + y)[i] == x[i]);
    }
    assert forall|i: int| 0 <= i < y.len() implies #[trigger] e.toks[pos + x.len() + i].kind
        == y[i] by {
        assert((x + y)[x.len() + i] == y[i]);
        assert(e.toks[pos + (x.len() + i)].kind == (x + y)[x.len() + i]);
    }
}

/// The binding strength of a node, capped at 3.
pub open spec fn cap3(p: nat) -> nat {
    if p >= 3 {
        3
    } else {
        p
    }
}

/// Measures for the mutual induction below: how many same-node steps
/// each parsing lemma can still take.
pub open spec fn rank_unary(p: nat, parent: nat) -> nat {
    if p >= parent {
        0
    } else {
        p + 1
    }
}

pub open spec fn rank_join(p: nat) -> nat {
    if p == 1 {
        0
    } else if p == 2 {
        1
    } else {
        2
    }
}

pub open spec fn rank_meet(p: nat) -> nat {
    if p == 2 {
        0
    } else if p >= 3 {
        1
    } else if p == 0 {
        2
    } else {
        3
    }
}

/// The kind of one token laid out by [`kinds_at`].
proof fn lemma_kind_at(env: PEnv, pos: nat, ks: Seq<TokenKindV>, i: int)
    requires
        kinds_at(env, pos, ks),
        0 <= i < ks.len(),
    ensures
        env.toks[pos + i].kind == ks[i],
        pos + i < env.toks.len(),
{
}

/// Parsing a unary-level unit (a negation, a name, or a
/// parenthesised expression) reads exactly its tokens.
#[verifier::rlimit(60)]
#[verifier::spinoff_prover]
pub proof fn lemma_parse_unary(env: PEnv, e: ExprV, parent: nat, pos: nat, depth: nat) -> (x: ExprV)
    requires
        vars_ok(e),
        prec_v(e) >= 3 || prec_v(e) < parent,
        kinds_at(env, pos, kinds_of(e, parent)),
        depth + nest(e, parent) <= MAX_DEPTH,
    ensures
        strip(x) == strip(e),
        p_unary(env, pos, depth) == Ok::<(ExprV, nat), DslErrorV>(
            (x, pos + kinds_of(e, parent).len()),
        ),
    decreases e, rank_unary(prec_v(e), parent),
{
    let k = kinds_of(e, parent);
    if prec_v(e) < parent {
        let inner = kinds_of(e, 0);
        assert(k =~= seq![TokenKindV::LParen] + inner + seq![TokenKindV::RParen]);
        lemma_kinds_split(env, pos, seq![TokenKindV::LParen] + inner, seq![TokenKindV::RParen]);
        lemma_kinds_split(env, pos, seq![TokenKindV::LParen], inner);
        lemma_kind_at(env, pos, seq![TokenKindV::LParen], 0);
        let end = pos + 1 + inner.len();
        lemma_kind_at(env, end, seq![TokenKindV::RParen], 0);
        assert(at_tag(env, end, 5));
        assert(!at_tag(env, end, 0) && !at_tag(env, end, 1) && !at_tag(env, end, 2) && !at_tag(
            env,
            end,
            3,
        ));
        assert(!at_tag(env, pos, 4));
        let xi = lemma_parse_impl(env, e, pos + 1, depth + 1);
        assert(p_impl(env, pos + 1, depth + 1) == Ok::<(ExprV, nat), DslErrorV>((xi, end)));
        assert(p_primary(env, pos, depth) == Ok::<(ExprV, nat), DslErrorV>((xi, end + 1)));
        xi
    } else {
        match e {
            ExprV::Atom(g, _) => {
                lemma_grid_name_round_trip(g);
                lemma_kind_at(env, pos, k, 0);
                assert(!at_tag(env, pos, 4));
                ExprV::Atom(g, env.toks[pos as int].span)
            },
            ExprV::Var(n, _) => {
                lemma_kind_at(env, pos, k, 0);
                assert(!at_tag(env, pos, 4));
                ExprV::Var(n, env.toks[pos as int].span)
            },
            ExprV::Neg(a, _) => {
                let ka = kinds_of(*a, 3);
                assert(k =~= seq![TokenKindV::Bang] + ka);
                lemma_kinds_split(env, pos, seq![TokenKindV::Bang], ka);
                lemma_kind_at(env, pos, seq![TokenKindV::Bang], 0);
                assert(at_tag(env, pos, 4));
                let xa = lemma_parse_unary(env, *a, 3, pos + 1, depth + 1);
                let start = env.toks[pos as int].span.start;
                ExprV::Neg(Box::new(xa), Span { start, end: crate::dsl::ast::span_of(xa).end })
            },
            _ => {
                assert(false);
                e
            },
        }
    }
}

/// Parsing at the `&` level from the tokens of `e` (printed at
/// strength 2) reads `e` and leaves the `&` loop to go on after it.
pub proof fn lemma_parse_meet(env: PEnv, e: ExprV, pos: nat, depth: nat) -> (x: ExprV)
    requires
        vars_ok(e),
        kinds_at(env, pos, kinds_of(e, 2)),
        depth + nest(e, 2) <= MAX_DEPTH,
    ensures
        strip(x) == strip(e),
        p_meet(env, pos, depth) == p_meet_rest(env, pos + kinds_of(e, 2).len(), depth, x),
    decreases e, rank_meet(prec_v(e)),
{
    match e {
        ExprV::Meet(a, c, _) => {
            let ka = kinds_of(*a, 2);
            let kc = kinds_of(*c, 3);
            assert(kinds_of(e, 2) =~= ka + seq![TokenKindV::Ampersand] + kc);
            lemma_kinds_split(env, pos, ka + seq![TokenKindV::Ampersand], kc);
            lemma_kinds_split(env, pos, ka, seq![TokenKindV::Ampersand]);
            let xa = lemma_parse_meet(env, *a, pos, depth);
            let q = pos + ka.len();
            lemma_kind_at(env, q, seq![TokenKindV::Ampersand], 0);
            assert(at_tag(env, q, 0));
            let xc = lemma_parse_unary(env, *c, 3, q + 1, depth);
            ExprV::Meet(Box::new(xa), Box::new(xc), crate::dsl::parser::cover(xa, xc))
        },
        _ => {
            let x = lemma_parse_unary(env, e, 2, pos, depth);
            x
        },
    }
}

/// Parsing at the `|` level from the tokens of `e` (printed at
/// strength 1), not followed by `&`, reads `e` and leaves the `|`
/// loop to go on after it.
pub proof fn lemma_parse_join(env: PEnv, e: ExprV, pos: nat, depth: nat) -> (x: ExprV)
    requires
        vars_ok(e),
        kinds_at(env, pos, kinds_of(e, 1)),
        depth + nest(e, 1) <= MAX_DEPTH,
        !at_tag(env, pos + kinds_of(e, 1).len(), 0),
    ensures
        strip(x) == strip(e),
        p_join(env, pos, depth) == p_join_rest(env, pos + kinds_of(e, 1).len(), depth, x),
    decreases e, rank_join(prec_v(e)),
{
    let end = pos + kinds_of(e, 1).len();
    match e {
        ExprV::Join(a, c, _) => {
            let ka = kinds_of(*a, 1);
            let kc = kinds_of(*c, 2);
            assert(kinds_of(e, 1) =~= ka + seq![TokenKindV::Pipe] + kc);
            lemma_kinds_split(env, pos, ka + seq![TokenKindV::Pipe], kc);
            lemma_kinds_split(env, pos, ka, seq![TokenKindV::Pipe]);
            let q = pos + ka.len();
            lemma_kind_at(env, q, seq![TokenKindV::Pipe], 0);
            assert(at_tag(env, q, 1) && !at_tag(env, q, 0));
            let xa = lemma_parse_join(env, *a, pos, depth);
            let xc = lemma_parse_meet(env, *c, q + 1, depth);
            assert(p_meet_rest(env, end, depth, xc) == Ok::<(ExprV, nat), DslErrorV>((xc, end)));
            ExprV::Join(Box::new(xa), Box::new(xc), crate::dsl::parser::cover(xa, xc))
        },
        ExprV::Imply(..) => {
            let x = lemma_parse_unary(env, e, 1, pos, depth);
            x
        },
        ExprV::Coimply(..) => {
            let x = lemma_parse_unary(env, e, 1, pos, depth);
            x
        },
        _ => {
            assert(kinds_of(e, 1) == kinds_of(e, 2));
            let x = lemma_parse_meet(env, e, pos, depth);
            assert(p_meet_rest(env, end, depth, x) == Ok::<(ExprV, nat), DslErrorV>((x, end)));
            x
        },
    }
}

/// Parsing at the `>`/`<` level from the tokens of `e` (printed at
/// strength 0), followed by neither `&` nor `|`, reads `e` and leaves
/// the implication loop to go on after it.
#[verifier::rlimit(80)]
#[verifier::spinoff_prover]
pub proof fn lemma_parse_impl(env: PEnv, e: ExprV, pos: nat, depth: nat) -> (x: ExprV)
    requires
        vars_ok(e),
        kinds_at(env, pos, kinds_of(e, 0)),
        depth + nest(e, 0) <= MAX_DEPTH,
        !at_tag(env, pos + kinds_of(e, 0).len(), 0),
        !at_tag(env, pos + kinds_of(e, 0).len(), 1),
    ensures
        strip(x) == strip(e),
        p_impl(env, pos, depth) == p_impl_rest(env, pos + kinds_of(e, 0).len(), depth, x),
    decreases e, cap3(prec_v(e)),
{
    let end = pos + kinds_of(e, 0).len();
    match e {
        ExprV::Imply(a, c, _) => {
            let ka = kinds_of(*a, 0);
            let kc = kinds_of(*c, 1);
            assert(kinds_of(e, 0) =~= ka + seq![TokenKindV::Gt] + kc);
            lemma_kinds_split(env, pos, ka + seq![TokenKindV::Gt], kc);
            lemma_kinds_split(env, pos, ka, seq![TokenKindV::Gt]);
            let q = pos + ka.len();
            lemma_kind_at(env, q, seq![TokenKindV::Gt], 0);
            assert(at_tag(env, q, 2) && !at_tag(env, q, 0) && !at_tag(env, q, 1));
            let xa = lemma_parse_impl(env, *a, pos, depth);
            let xc = lemma_parse_join(env, *c, q + 1, depth);
            assert(p_join_rest(env, end, depth, xc) == Ok::<(ExprV, nat), DslErrorV>((xc, end)));
            ExprV::Imply(Box::new(xa), Box::new(xc), crate::dsl::parser::cover(xa, xc))
        },
        ExprV::Coimply(a, c, _) => {
            let ka = kinds_of(*a, 0);
            let kc = kinds_of(*c, 1);
            assert(kinds_of(e, 0) =~= ka + seq![TokenKindV::Lt] + kc);
            lemma_kinds_split(env, pos, ka + seq![TokenKindV::Lt], kc);
            lemma_kinds_split(env, pos, ka, seq![TokenKindV::Lt]);
            let q = pos + ka.len();
            lemma_kind_at(env, q, seq![TokenKindV::Lt], 0);
            assert(at_tag(env, q, 3) && !at_tag(env, q, 2) && !at_tag(env, q, 0) && !at_tag(
                env,
                q,
                1,
            ));
            let xa = lemma_parse_impl(env, *a, pos, depth);
            let xc = lemma_parse_join(env, *c, q + 1, depth);
            assert(p_join_rest(env, end, depth, xc) == Ok::<(ExprV, nat), DslErrorV>((xc, end)));
            ExprV::Coimply(Box::new(xa), Box::new(xc), crate::dsl::parser::cover(xa, xc))
        },
        _ => {
            assert(kinds_of(e, 0) == kinds_of(e, 1));
            let x = lemma_parse_join(env, e, pos, depth);
            assert(p_join_rest(env, end, depth, x) == Ok::<(ExprV, nat), DslErrorV>((x, end)));
            x
        },
    }
}

/// Every character of a printed expression is a name character, an
/// operator or a parenthesis.
proof fn lemma_display_chars(e: ExprV, parent: nat)
    requires
        vars_ok(e),
    ensures
        forall|i: int| 0 <= i < display_v(e, parent).len() ==> text_char(#[trigger] display_v(e, parent)[i]),
    decreases e,
{
    let d = display_v(e, parent);
    let body = display_v(e, 0);
    assert(forall|i: int| 0 <= i < body.len() ==> text_char(#[trigger] body[i])) by {
        match e {
            ExprV::Atom(g, _) => {
                lemma_grid_name_is_name(g);
            },
            ExprV::Var(..) => {},
            ExprV::Neg(a, _) => {
                lemma_display_chars(*a, 3);
                let da = display_v(*a, 3);
                assert forall|i: int| 0 <= i < body.len() implies text_char(#[trigger] body[i]) by {
                    assert(body =~= seq!['!'] + da);
                    if i > 0 {
                        assert(body[i] == da[i - 1]);
                    }
                }
            },
            ExprV::Meet(a, c, _) => {
                lemma_display_chars(*a, 2);
                lemma_display_chars(*c, 3);
                lemma_concat_chars(display_v(*a, 2), '&', display_v(*c, 3));
            },
            ExprV::Join(a, c, _) => {
                lemma_display_chars(*a, 1);
                lemma_display_chars(*c, 2);
                lemma_concat_chars(display_v(*a, 1), '|', display_v(*c, 2));
            },
            ExprV::Imply(a, c, _) => {
                lemma_display_chars(*a, 0);
                lemma_display_chars(*c, 1);
                lemma_concat_chars(display_v(*a, 0), '>', display_v(*c, 1));
            },
            ExprV::Coimply(a, c, _) => {
                lemma_display_chars(*a, 0);
                lemma_display_chars(*c, 1);
                lemma_concat_chars(display_v(*a, 0), '<', display_v(*c, 1));
            },
        }
    }
    if prec_v(e) < parent {
        assert(d =~= seq!['('] + body + seq![')']);
        assert forall|i: int| 0 <= i < d.len() implies text_char(#[trigger] d[i]) by {
            if 0 < i < d.len() - 1 {
                assert(d[i] == body[i - 1]);
            }
        }
    }
}

/// `x`, an operator, `y`: all text characters when `x` and `y` are.
proof fn lemma_concat_chars(x: Seq<char>, op: char, y: Seq<char>)
    requires
        forall|i: int| 0 <= i < x.len() ==> text_char(#[trigger] x[i]),
        forall|i: int| 0 <= i < y.len() ==> text_char(#[trigger] y[i]),
        text_char(op),
    ensures
        forall|i: int| 0 <= i < (x + seq![op] + y).len() ==> text_char(#[trigger] (x + seq![op] + y)[i]),
{
    let s = x + seq![op] + y;
    assert forall|i: int| 0 <= i < s.len() implies text_char(#[trigger] s[i]) by {
        if i < x.len() {
            assert(s[i] == x[i]);
        } else if i == x.len() {
            assert(s[i] == op);
        } else {
            assert(s[i] == y[i - x.len() - 1]);
        }
    }
}

/// Evaluation does not look at spans, except to report an unknown
/// variable.
proof fn lemma_eval_strip(e: ExprV, env: Seq<(Seq<char>, Grid)>)
    ensures
        (eval_v(e, env) is Ok) == (eval_v(strip(e), env) is Ok),
        eval_v(e, env) is Ok ==> eval_v(e, env) == eval_v(strip(e), env),
    decreases e,
{
    match e {
        ExprV::Atom(..) => {},
        ExprV::Var(..) => {},
        ExprV::Neg(a, _) => {
            lemma_eval_strip(*a, env);
        },
        ExprV::Meet(a, c, _) => {
            lemma_eval_strip(*a, env);
            lemma_eval_strip(*c, env);
        },
        ExprV::Join(a, c, _) => {
            lemma_eval_strip(*a, env);
            lemma_eval_strip(*c, env);
        },
        ExprV::Imply(a, c, _) => {
            lemma_eval_strip(*a, env);
            lemma_eval_strip(*c, env);
        },
        ExprV::Coimply(a, c, _) => {
            lemma_eval_strip(*a, env);
            lemma_eval_strip(*c, env);
        },
    }
}

/// A printed expression has at least one token.
proof fn lemma_kinds_nonempty(e: ExprV, parent: nat)
    requires
        vars_ok(e),
    ensures
        kinds_of(e, parent).len() > 0,
        display_v(e, parent).len() > 0,
{
    lemma_display_nonempty(e, parent);
}

proof fn lemma_display_nonempty(e: ExprV, parent: nat)
    requires
        vars_ok(e),
    ensures
        kinds_of(e, parent).len() > 0,
        display_v(e, parent).len() > 0,
    decreases e,
{
    match e {
        ExprV::Atom(g, _) => {
            lemma_grid_name_is_name(g);
            assert(grid_name(g).len() > 0);
            if prec_v(e) < parent {
                assert(display_v(e, parent) =~= seq!['('] + grid_name(g) + seq![')']);
            } else {
                assert(display_v(e, parent) == grid_name(g));
            }
        },
        ExprV::Var(..) => {},
        ExprV::Neg(a, _) => {},
        ExprV::Meet(a, c, _) => {
            lemma_display_nonempty(*a, 2);
        },
        ExprV::Join(a, c, _) => {
            lemma_display_nonempty(*a, 1);
        },
        ExprV::Imply(a, c, _) => {
            lemma_display_nonempty(*a, 0);
        },
        ExprV::Coimply(a, c, _) => {
            lemma_display_nonempty(*a, 0);
        },
    }
}

/// Printing an expression and parsing the text back against the same
/// environment gives the grid the expression denotes. This holds for
/// every expression whose variables are names that name no grid (a
/// name that does would read back as that grid), whose printed
/// nesting of negations and parentheses stays within the parser's
/// limit, and whose variables all resolve.
pub proof fn lemma_display_parse_round_trip(e: ExprV, env: Seq<(Seq<char>, Grid)>)
    requires
        vars_ok(e),
        nest(e, 0) <= MAX_DEPTH,
        eval_v(e, env) is Ok,
    ensures
        parse_spec(display_v(e, 0), env) == Ok::<Grid, DslErrorV>(eval_v(e, env)->Ok_0),
{
    let t = display_v(e, 0);
    let n = t.len();
    lemma_display_chars(e, 0);
    assert(is_ascii_chars(t)) by {
        assert forall|i: int| 0 <= i < t.len() implies '\0' <= #[trigger] t[i] <= '\u{7f}' by {
            assert(text_char(t[i]));
        }
    }
    is_ascii_chars_encode_utf8(t);
    let b = encode_utf8(t);
    assert(b =~= ascii_bytes(t));
    assert(b.subrange(0, n as int) =~= ascii_bytes(t));
    assert(laid(b, 0, e, 0));
    let toks = lemma_lex_display(b, 0, Seq::empty(), t, e, 0);
    assert(Seq::<TokenV>::empty() + toks =~= toks);
    assert(lex_from(b, n, toks, t) == Ok::<Seq<TokenV>, DslErrorV>(toks));
    lemma_kinds_nonempty(e, 0);
    let env_p = PEnv { toks, len: b.len(), src: t };
    assert(toks.len() == kinds_of(e, 0).len()) by {
        assert(kinds(toks).len() == toks.len());
    }
    assert(kinds_at(env_p, 0, kinds_of(e, 0))) by {
        assert forall|i: int| 0 <= i < kinds_of(e, 0).len() implies #[trigger] env_p.toks[0 + i].kind
            == kinds_of(e, 0)[i] by {
            assert(kinds(toks)[i] == toks[i].kind);
        }
    }
    let x = lemma_parse_impl(env_p, e, 0, 0);
    assert(p_impl_rest(env_p, toks.len(), 0, x) == Ok::<(ExprV, nat), DslErrorV>((x, toks.len())));
    assert(parse_tokens_spec(env_p) == Ok::<ExprV, DslErrorV>(x));
    lemma_eval_strip(e, env);
    lemma_eval_strip(x, env);
}

/// A one-operator expression over two atoms prints as the atoms'
/// names around the operator and reads back as its value.
proof fn lemma_parse_atoms(e: ExprV, env: Seq<(Seq<char>, Grid)>)
    requires
        match e {
            ExprV::Atom(..) => true,
            ExprV::Neg(x, _) => *x is Atom,
            ExprV::Meet(x, y, _) => *x is Atom && *y is Atom,
            ExprV::Join(x, y, _) => *x is Atom && *y is Atom,
            ExprV::Imply(x, y, _) => *x is Atom && *y is Atom,
            ExprV::Coimply(x, y, _) => *x is Atom && *y is Atom,
            ExprV::Var(..) => false,
        },
    ensures
        parse_spec(display_v(e, 0), env) == Ok::<Grid, DslErrorV>(eval_v(e, env)->Ok_0),
{
    reveal_with_fuel(vars_ok, 2);
    reveal_with_fuel(nest, 2);
    reveal_with_fuel(eval_v, 2);
    lemma_display_parse_round_trip(e, env);
}

/// `a& b` parses to the meet of `a` and `b`.
#[verifier::spinoff_prover]
proof fn lemma_parse_meet_names(a: Grid, b: Grid, env: Seq<(Seq<char>, Grid)>)
    ensures
        parse_spec(grid_name(a) + seq!['&'] + grid_name(b), env) == Ok::<Grid, DslErrorV>(crate::time::grid_meet(a, b)),
{
    let sp = Span { start: 0, end: 0 };
    let e = ExprV::Meet(Box::new(ExprV::Atom(a, sp)), Box::new(ExprV::Atom(b, sp)), sp);
    reveal_with_fuel(display_v, 2);
    reveal_with_fuel(eval_v, 2);
    assert(display_v(e, 0) == grid_name(a) + seq!['&'] + grid_name(b));
    lemma_parse_atoms(e, env);
}

/// `a| b` parses to the join of `a` and `b`.
#[verifier::spinoff_prover]
proof fn lemma_parse_join_names(a: Grid, b: Grid, env: Seq<(Seq<char>, Grid)>)
    ensures
        parse_spec(grid_name(a) + seq!['|'] + grid_name(b), env) == Ok::<Grid, DslErrorV>(crate::time::grid_join(a, b)),
{
    let sp = Span { start: 0, end: 0 };
    let e = ExprV::Join(Box::new(ExprV::Atom(a, sp)), Box::new(ExprV::Atom(b, sp)), sp);
    reveal_with_fuel(display_v, 2);
    reveal_with_fuel(eval_v, 2);
    assert(display_v(e, 0) == grid_name(a) + seq!['|'] + grid_name(b));
    lemma_parse_atoms(e, env);
}

/// `a> b` parses to the imp of `a` and `b`.
#[verifier::spinoff_prover]
proof fn lemma_parse_imp_names(a: Grid, b: Grid, env: Seq<(Seq<char>, Grid)>)
    ensures
        parse_spec(grid_name(a) + seq!['>'] + grid_name(b), env) == Ok::<Grid, DslErrorV>(crate::time::grid_imp(a, b)),
{
    let sp = Span { start: 0, end: 0 };
    let e = ExprV::Imply(Box::new(ExprV::Atom(a, sp)), Box::new(ExprV::Atom(b, sp)), sp);
    reveal_with_fuel(display_v, 2);
    reveal_with_fuel(eval_v, 2);
    assert(display_v(e, 0) == grid_name(a) + seq!['>'] + grid_name(b));
    lemma_parse_atoms(e, env);
}

/// `a< b` parses to the coimp of `a` and `b`.
#[verifier::spinoff_prover]
proof fn lemma_parse_coimp_names(a: Grid, b: Grid, env: Seq<(Seq<char>, Grid)>)
    ensures
        parse_spec(grid_name(a) + seq!['<'] + grid_name(b), env) == Ok::<Grid, DslErrorV>(crate::time::grid_coimp(a, b)),
{
    let sp = Span { start: 0, end: 0 };
    let e = ExprV::Coimply(Box::new(ExprV::Atom(a, sp)), Box::new(ExprV::Atom(b, sp)), sp);
    reveal_with_fuel(display_v, 2);
    reveal_with_fuel(eval_v, 2);
    assert(display_v(e, 0) == grid_name(a) + seq!['<'] + grid_name(b));
    lemma_parse_atoms(e, env);
}

/// `!a` parses to the pseudo-complement of `a`.
#[verifier::spinoff_prover]
proof fn lemma_parse_neg_name(a: Grid, env: Seq<(Seq<char>, Grid)>)
    ensures
        parse_spec(seq!['!'] + grid_name(a), env) == Ok::<Grid, DslErrorV>(crate::time::grid_neg(a)),
{
    let sp = Span { start: 0, end: 0 };
    let e = ExprV::Neg(Box::new(ExprV::Atom(a, sp)), sp);
    reveal_with_fuel(display_v, 2);
    reveal_with_fuel(eval_v, 2);
    assert(display_v(e, 0) == seq!['!'] + grid_name(a));
    lemma_parse_atoms(e, env);
}

/// A grid's name parses to the grid.
proof fn lemma_parse_name(a: Grid, env: Seq<(Seq<char>, Grid)>)
    ensures
        parse_spec(grid_name(a), env) == Ok::<Grid, DslErrorV>(a),
{
    lemma_parse_atoms(ExprV::Atom(a, Span { start: 0, end: 0 }), env);
}

/// Every operator applied to two printed grids parses to the lattice
/// operation on those grids, whatever the environment: `a&b` to the
/// meet, `a|b` to the join, `a>b` to the implication, `a<b` to the
/// co-implication, `!a` to the pseudo-complement, and a grid's name to
/// the grid.
pub proof fn lemma_parse_grid_operations(a: Grid, b: Grid, env: Seq<(Seq<char>, Grid)>)
    ensures
        parse_spec(grid_name(a), env) == Ok::<Grid, DslErrorV>(a),
        parse_spec(grid_name(a) + seq!['&'] + grid_name(b), env) == Ok::<Grid, DslErrorV>(
            crate::time::grid_meet(a, b),
        ),
        parse_spec(grid_name(a) + seq!['|'] + grid_name(b), env) == Ok::<Grid, DslErrorV>(
            crate::time::grid_join(a, b),
        ),
        parse_spec(grid_name(a) + seq!['>'] + grid_name(b), env) == Ok::<Grid, DslErrorV>(
            crate::time::grid_imp(a, b),
        ),
        parse_spec(grid_name(a) + seq!['<'] + grid_name(b), env) == Ok::<Grid, DslErrorV>(
            crate::time::grid_coimp(a, b),
        ),
        parse_spec(seq!['!'] + grid_name(a), env) == Ok::<Grid, DslErrorV>(crate::time::grid_neg(a)),
{
    lemma_parse_name(a, env);
    lemma_parse_meet_names(a, b, env);
    lemma_parse_join_names(a, b, env);
    lemma_parse_imp_names(a, b, env);
    lemma_parse_coimp_names(a, b, env);
    lemma_parse_neg_name(a, env);
}

} // verus!
