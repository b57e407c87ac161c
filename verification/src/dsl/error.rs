//! Errors of the grid-expression language, with the source span they
//! point at, and their printed messages.

use vstd::prelude::*;
use crate::dsl::ast::Span;
use crate::text::{int_decimal, push_char, push_i64, push_str};

verus! {

/// An error from lexing, parsing or evaluating a grid expression.
#[derive(Clone, Debug, Eq, PartialEq)]
pub struct DslError {
    pub kind: DslErrorKind,
    pub span: Span,
    /// The whole input the error points into.
    pub source: String,
}

/// What went wrong.
#[derive(Clone, Debug, Eq, PartialEq)]
pub enum DslErrorKind {
    /// Empty input (after stripping whitespace).
    EmptyInput,
    /// Unexpected character in the input.
    UnexpectedChar(char),
    /// Expected a token but found end of input.
    UnexpectedEof,
    /// Expected a specific token kind.
    Expected { expected: &'static str, found: String },
    /// Invalid grid atom.
    InvalidAtom(String),
    /// Invalid swing resolution.
    InvalidSwingResolution(String),
    /// Swing amount out of `i8` range.
    SwingAmountOutOfRange(i64),
    /// Duplicate modifier (e.g. two `~` on the same track).
    DuplicateModifier(&'static str),
    /// Offset value out of `i32` range.
    OffsetOutOfRange(i64),
    /// Unmatched parenthesis.
    UnmatchedParen,
    /// Nesting depth exceeded (max 32).
    NestingTooDeep,
    /// A variable that no earlier channel defines.
    UnknownVariable(String),
}

/// The mathematical form of a [`DslErrorKind`].
pub enum DslErrorKindV {
    EmptyInput,
    UnexpectedChar(char),
    UnexpectedEof,
    Expected { expected: Seq<char>, found: Seq<char> },
    InvalidAtom(Seq<char>),
    InvalidSwingResolution(Seq<char>),
    SwingAmountOutOfRange(i64),
    DuplicateModifier(Seq<char>),
    OffsetOutOfRange(i64),
    UnmatchedParen,
    NestingTooDeep,
    UnknownVariable(Seq<char>),
}

/// The mathematical form of a [`DslError`].
pub struct DslErrorV {
    pub kind: DslErrorKindV,
    pub span: Span,
    pub source: Seq<char>,
}

impl View for DslErrorKind {
    type V = DslErrorKindV;

    open spec fn view(&self) -> DslErrorKindV {
        match self {
            DslErrorKind::EmptyInput => DslErrorKindV::EmptyInput,
            DslErrorKind::UnexpectedChar(c) => DslErrorKindV::UnexpectedChar(*c),
            DslErrorKind::UnexpectedEof => DslErrorKindV::UnexpectedEof,
            DslErrorKind::Expected { expected, found } => DslErrorKindV::Expected {
                expected: expected@,
                found: found@,
            },
            DslErrorKind::InvalidAtom(s) => DslErrorKindV::InvalidAtom(s@),
            DslErrorKind::InvalidSwingResolution(s) => DslErrorKindV::InvalidSwingResolution(s@),
            DslErrorKind::SwingAmountOutOfRange(n) => DslErrorKindV::SwingAmountOutOfRange(*n),
            DslErrorKind::DuplicateModifier(s) => DslErrorKindV::DuplicateModifier(s@),
            DslErrorKind::OffsetOutOfRange(n) => DslErrorKindV::OffsetOutOfRange(*n),
            DslErrorKind::UnmatchedParen => DslErrorKindV::UnmatchedParen,
            DslErrorKind::NestingTooDeep => DslErrorKindV::NestingTooDeep,
            DslErrorKind::UnknownVariable(s) => DslErrorKindV::UnknownVariable(s@),
        }
    }
}

impl View for DslError {
    type V = DslErrorV;

    open spec fn view(&self) -> DslErrorV {
        DslErrorV { kind: self.kind@, span: self.span, source: self.source@ }
    }
}

/// The one-line description of an error kind.
pub open spec fn kind_message(k: DslErrorKindV) -> Seq<char> {
    match k {
        DslErrorKindV::EmptyInput => "empty input"@,
        DslErrorKindV::UnexpectedChar(c) => "unexpected character '"@ + seq![c] + "'"@,
        DslErrorKindV::UnexpectedEof => "unexpected end of input"@,
        DslErrorKindV::Expected { expected, found } => "expected "@ + expected + ", found "@
            + found,
        DslErrorKindV::InvalidAtom(s) => "invalid grid atom: "@ + s,
        DslErrorKindV::InvalidSwingResolution(s) => "invalid swing resolution: "@ + s,
        DslErrorKindV::SwingAmountOutOfRange(n) => "swing amount "@ + int_decimal(n as int)
            + " out of i8 range"@,
        DslErrorKindV::DuplicateModifier(s) => "duplicate "@ + s + " modifier"@,
        DslErrorKindV::OffsetOutOfRange(n) => "offset "@ + int_decimal(n as int)
            + " out of i32 range"@,
        DslErrorKindV::UnmatchedParen => "unmatched parenthesis"@,
        DslErrorKindV::NestingTooDeep => "nesting depth exceeds 32"@,
        DslErrorKindV::UnknownVariable(s) => "unknown variable: "@ + s,
    }
}

/// `n` copies of `c`.
pub open spec fn repeat_char(c: char, n: nat) -> Seq<char> {
    Seq::new(n, |i: int| c)
}

/// The printed error: the message, the source line, and a caret line
/// under the span (at least one caret).
pub open spec fn error_message(e: DslErrorV) -> Seq<char> {
    let width: nat = if e.span.end > e.span.start {
        (e.span.end - e.span.start) as nat
    } else {
        1
    };
    "DSL error: "@ + kind_message(e.kind) + "\n  "@ + e.source + "\n  "@ + repeat_char(
        ' ',
        e.span.start as nat,
    ) + repeat_char('^', width)
}

fn push_repeat(s: &mut String, c: char, n: usize)
    ensures
        final(s)@ == old(s)@ + repeat_char(c, n as nat),
{
    let mut i: usize = 0;
    while i < n
        invariant
            0 <= i <= n,
            s@ == old(s)@ + repeat_char(c, i as nat),
        decreases n - i,
    {
        push_char(s, c);
        i += 1;
        assert(s@ =~= old(s)@ + repeat_char(c, i as nat));
    }
}

impl DslErrorKind {
    /// The one-line description.
    pub fn message(&self) -> (s: String)
        ensures
            s@ == kind_message(self@),
    {
        let mut s = String::new();
        match self {
            DslErrorKind::EmptyInput => push_str(&mut s, "empty input"),
            DslErrorKind::UnexpectedChar(c) => {
                push_str(&mut s, "unexpected character '");
                push_char(&mut s, *c);
                push_str(&mut s, "'");
            },
            DslErrorKind::UnexpectedEof => push_str(&mut s, "unexpected end of input"),
            DslErrorKind::Expected { expected, found } => {
                push_str(&mut s, "expected ");
                push_str(&mut s, expected);
                push_str(&mut s, ", found ");
                push_str(&mut s, found.as_str());
            },
            DslErrorKind::InvalidAtom(t) => {
                push_str(&mut s, "invalid grid atom: ");
                push_str(&mut s, t.as_str());
            },
            DslErrorKind::InvalidSwingResolution(t) => {
                push_str(&mut s, "invalid swing resolution: ");
                push_str(&mut s, t.as_str());
            },
            DslErrorKind::SwingAmountOutOfRange(n) => {
                push_str(&mut s, "swing amount ");
                push_i64(&mut s, *n);
                push_str(&mut s, " out of i8 range");
            },
            DslErrorKind::DuplicateModifier(k) => {
                push_str(&mut s, "duplicate ");
                push_str(&mut s, k);
                push_str(&mut s, " modifier");
            },
            DslErrorKind::OffsetOutOfRange(n) => {
                push_str(&mut s, "offset ");
                push_i64(&mut s, *n);
                push_str(&mut s, " out of i32 range");
            },
            DslErrorKind::UnmatchedParen => push_str(&mut s, "unmatched parenthesis"),
            DslErrorKind::NestingTooDeep => push_str(&mut s, "nesting depth exceeds 32"),
            DslErrorKind::UnknownVariable(t) => {
                push_str(&mut s, "unknown variable: ");
                push_str(&mut s, t.as_str());
            },
        }
        assert(s@ =~= kind_message(self@));
        s
    }
}

impl DslError {
    /// The printed error: message, source, and carets under the span.
    pub fn to_string(&self) -> (s: String)
        ensures
            s@ == error_message(self@),
    {
        let mut s = String::new();
        push_str(&mut s, "DSL error: ");
        let m = self.kind.message();
        push_str(&mut s, m.as_str());
        push_str(&mut s, "\n  ");
        push_str(&mut s, self.source.as_str());
        push_str(&mut s, "\n  ");
        push_repeat(&mut s, ' ', self.span.start);
        let width: usize = if self.span.end > self.span.start {
            self.span.end - self.span.start
        } else {
            1
        };
        push_repeat(&mut s, '^', width);
        assert(s@ =~= error_message(self@));
        s
    }
}

} // verus!
