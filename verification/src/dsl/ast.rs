//! Syntax tree of the grid-expression language, with its mathematical
//! view (names as character sequences).

use vstd::prelude::*;
use crate::swing::SwingConfig;
use crate::time::{Grid, TBase};

verus! {

/// Byte-offset span into the source string: `[start, end)`.
#[derive(Copy, Clone, Debug, Eq, PartialEq, Structural)]
pub struct Span {
    pub start: usize,
    pub end: usize,
}

/// A grid expression.
#[derive(Debug, PartialEq)]
pub enum Expr {
    /// A grid atom: `T16`, `T8q`, `T2p`, ...
    Atom(Grid, Span),
    /// A reference to an earlier channel's grid: `kick`, `C1`.
    Var(String, Span),
    /// Pseudo-complement: `!a`.
    Neg(Box<Expr>, Span),
    /// Meet (common refinement): `a & b`.
    Meet(Box<Expr>, Box<Expr>, Span),
    /// Join (alignment): `a | b`.
    Join(Box<Expr>, Box<Expr>, Span),
    /// Heyting implication: `a > b`.
    Imply(Box<Expr>, Box<Expr>, Span),
    /// Co-Heyting coimplication: `a < b`.
    Coimply(Box<Expr>, Box<Expr>, Span),
}

/// The mathematical form of an [`Expr`]: variable names are character
/// sequences.
pub enum ExprV {
    Atom(Grid, Span),
    Var(Seq<char>, Span),
    Neg(Box<ExprV>, Span),
    Meet(Box<ExprV>, Box<ExprV>, Span),
    Join(Box<ExprV>, Box<ExprV>, Span),
    Imply(Box<ExprV>, Box<ExprV>, Span),
    Coimply(Box<ExprV>, Box<ExprV>, Span),
}

/// The view of an expression.
pub open spec fn expr_view(e: Expr) -> ExprV
    decreases e,
{
    match e {
        Expr::Atom(g, s) => ExprV::Atom(g, s),
        Expr::Var(n, s) => ExprV::Var(n@, s),
        Expr::Neg(a, s) => ExprV::Neg(Box::new(expr_view(*a)), s),
        Expr::Meet(a, b, s) => ExprV::Meet(Box::new(expr_view(*a)), Box::new(expr_view(*b)), s),
        Expr::Join(a, b, s) => ExprV::Join(Box::new(expr_view(*a)), Box::new(expr_view(*b)), s),
        Expr::Imply(a, b, s) => ExprV::Imply(Box::new(expr_view(*a)), Box::new(expr_view(*b)), s),
        Expr::Coimply(a, b, s) => ExprV::Coimply(
            Box::new(expr_view(*a)),
            Box::new(expr_view(*b)),
            s,
        ),
    }
}

impl View for Expr {
    type V = ExprV;

    open spec fn view(&self) -> ExprV {
        expr_view(*self)
    }
}

/// The source span recorded on an expression node.
pub open spec fn span_of(e: ExprV) -> Span {
    match e {
        ExprV::Atom(_, s) => s,
        ExprV::Var(_, s) => s,
        ExprV::Neg(_, s) => s,
        ExprV::Meet(_, _, s) => s,
        ExprV::Join(_, _, s) => s,
        ExprV::Imply(_, _, s) => s,
        ExprV::Coimply(_, _, s) => s,
    }
}

impl Clone for Expr {
    fn clone(&self) -> (r: Self)
        ensures
            r == *self,
        decreases self,
    {
        match self {
            Expr::Atom(g, s) => Expr::Atom(*g, *s),
            Expr::Var(n, s) => Expr::Var(n.clone(), *s),
            Expr::Neg(a, s) => Expr::Neg(Box::new((**a).clone()), *s),
            Expr::Meet(a, b, s) => Expr::Meet(Box::new((**a).clone()), Box::new((**b).clone()), *s),
            Expr::Join(a, b, s) => Expr::Join(Box::new((**a).clone()), Box::new((**b).clone()), *s),
            Expr::Imply(a, b, s) => Expr::Imply(
                Box::new((**a).clone()),
                Box::new((**b).clone()),
                *s,
            ),
            Expr::Coimply(a, b, s) => Expr::Coimply(
                Box::new((**a).clone()),
                Box::new((**b).clone()),
                *s,
            ),
        }
    }
}

impl Expr {
    /// The source span of this expression.
    pub fn span(&self) -> (s: Span)
        ensures
            s == span_of(self@),
    {
        match self {
            Expr::Atom(_, s) => *s,
            Expr::Var(_, s) => *s,
            Expr::Neg(_, s) => *s,
            Expr::Meet(_, _, s) => *s,
            Expr::Join(_, _, s) => *s,
            Expr::Imply(_, _, s) => *s,
            Expr::Coimply(_, _, s) => *s,
        }
    }
}

/// A modifier attached to a track expression.
#[derive(Clone, Debug, PartialEq)]
pub enum Modifier {
    /// `~T16:80`: swing with explicit resolution and amount.
    Swing(TBase, i8, Span),
    /// `@-5`: musical offset in ticks (signed).
    Offset(i32, Span),
}

/// A single track: an expression plus zero or more modifiers.
#[derive(Clone, Debug, PartialEq)]
pub struct TrackAst {
    pub expr: Expr,
    pub modifiers: Vec<Modifier>,
    pub span: Span,
}

/// The evaluated form of a single track.
#[derive(Copy, Clone, Debug, Eq, PartialEq)]
pub struct TrackSpec {
    pub grid: Grid,
    pub swing: Option<SwingConfig>,
    pub offset_ticks: Option<i32>,
}

} // verus!
