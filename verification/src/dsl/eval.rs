//! Evaluation of a grid expression: each operator is the matching
//! lattice operation on grids; variables are looked up in the grids of
//! earlier channels.

use vstd::prelude::*;
use crate::dsl::ast::{Expr, ExprV, Span};
use crate::dsl::error::{DslError, DslErrorKind, DslErrorKindV, DslErrorV};
use crate::time::{grid_coimp, grid_imp, grid_join, grid_meet, grid_neg, Grid};

verus! {

/// The environment of earlier channels, as (name, grid) pairs.
pub open spec fn env_view(env: Seq<(String, Grid)>) -> Seq<(Seq<char>, Grid)> {
    env.map_values(|p: (String, Grid)| (p.0@, p.1))
}

/// The grid of the first entry named `name` at or after index `i`.
pub open spec fn env_lookup(env: Seq<(Seq<char>, Grid)>, name: Seq<char>, i: nat) -> Option<Grid>
    decreases env.len() - i,
{
    if i >= env.len() {
        None
    } else if env[i as int].0 == name {
        Some(env[i as int].1)
    } else {
        env_lookup(env, name, i + 1)
    }
}

/// The value of an expression, or the first unknown variable met in a
/// left-to-right walk (its name and span).
pub open spec fn eval_v(e: ExprV, env: Seq<(Seq<char>, Grid)>) -> Result<Grid, (Seq<char>, Span)>
    decreases e,
{
    match e {
        ExprV::Atom(g, _) => Ok(g),
        ExprV::Var(n, s) => match env_lookup(env, n, 0) {
            Some(g) => Ok(g),
            None => Err((n, s)),
        },
        ExprV::Neg(a, _) => match eval_v(*a, env) {
            Ok(g) => Ok(grid_neg(g)),
            Err(x) => Err(x),
        },
        ExprV::Meet(a, b, _) => match eval_v(*a, env) {
            Ok(ga) => match eval_v(*b, env) {
                Ok(gb) => Ok(grid_meet(ga, gb)),
                Err(x) => Err(x),
            },
            Err(x) => Err(x),
        },
        ExprV::Join(a, b, _) => match eval_v(*a, env) {
            Ok(ga) => match eval_v(*b, env) {
                Ok(gb) => Ok(grid_join(ga, gb)),
                Err(x) => Err(x),
            },
            Err(x) => Err(x),
        },
        ExprV::Imply(a, b, _) => match eval_v(*a, env) {
            Ok(ga) => match eval_v(*b, env) {
                Ok(gb) => Ok(grid_imp(ga, gb)),
                Err(x) => Err(x),
            },
            Err(x) => Err(x),
        },
        ExprV::Coimply(a, b, _) => match eval_v(*a, env) {
            Ok(ga) => match eval_v(*b, env) {
                Ok(gb) => Ok(grid_coimp(ga, gb)),
                Err(x) => Err(x),
            },
            Err(x) => Err(x),
        },
    }
}

/// Evaluation with errors reported against `source`.
pub open spec fn eval_spec(e: ExprV, env: Seq<(Seq<char>, Grid)>, source: Seq<char>) -> Result<
    Grid,
    DslErrorV,
> {
    match eval_v(e, env) {
        Ok(g) => Ok(g),
        Err((n, s)) => Err(
            DslErrorV { kind: DslErrorKindV::UnknownVariable(n), span: s, source: source },
        ),
    }
}

fn lookup(env: &[(String, Grid)], name: &String) -> (r: Option<Grid>)
    ensures
        r == env_lookup(env_view(env@), name@, 0),
{
    let ghost ev = env_view(env@);
    let mut i: usize = 0;
    while i < env.len()
        invariant
            0 <= i <= env@.len(),
            ev == env_view(env@),
            env_lookup(ev, name@, 0) == env_lookup(ev, name@, i as nat),
        decreases env.len() - i,
    {
        if env[i].0 == *name {
            return Some(env[i].1);
        }
        i += 1;
    }
    None
}

/// Evaluate an expression, resolving variables against `env` (the
/// first entry with a matching name, case-sensitively).
pub fn eval_expr(expr: &Expr, env: &[(String, Grid)], source: &str) -> (r: Result<Grid, DslError>)
    ensures
        match r {
            Ok(g) => eval_spec(expr@, env_view(env@), source@) == Ok::<Grid, DslErrorV>(g),
            Err(x) => eval_spec(expr@, env_view(env@), source@) == Err::<Grid, DslErrorV>(x@),
        },
    decreases expr,
{
    match expr {
        Expr::Atom(g, _) => Ok(*g),
        Expr::Var(name, span) => match lookup(env, name) {
            Some(g) => Ok(g),
            None => Err(
                DslError {
                    kind: DslErrorKind::UnknownVariable(name.clone()),
                    span: *span,
                    source: source.to_owned(),
                },
            ),
        },
        Expr::Neg(inner, _) => {
            let g = eval_expr(inner, env, source)?;
            Ok(g.neg())
        },
        Expr::Meet(a, b, _) => {
            let ga = eval_expr(a, env, source)?;
            let gb = eval_expr(b, env, source)?;
            Ok(ga.meet(&gb))
        },
        Expr::Join(a, b, _) => {
            let ga = eval_expr(a, env, source)?;
            let gb = eval_expr(b, env, source)?;
            Ok(ga.join(&gb))
        },
        Expr::Imply(a, b, _) => {
            let ga = eval_expr(a, env, source)?;
            let gb = eval_expr(b, env, source)?;
            Ok(ga.imp(&gb))
        },
        Expr::Coimply(a, b, _) => {
            let ga = eval_expr(a, env, source)?;
            let gb = eval_expr(b, env, source)?;
            Ok(ga.coimp(&gb))
        },
    }
}

/// Evaluation is compositional: the value of an operator node is the
/// lattice operation applied to its operands' values.
pub proof fn lemma_eval_homomorphic(a: ExprV, b: ExprV, s: Span, env: Seq<(Seq<char>, Grid)>)
    requires
        eval_v(a, env) is Ok,
        eval_v(b, env) is Ok,
    ensures
        eval_v(ExprV::Meet(Box::new(a), Box::new(b), s), env) == Ok::<Grid, (Seq<char>, Span)>(
            grid_meet(eval_v(a, env)->Ok_0, eval_v(b, env)->Ok_0),
        ),
        eval_v(ExprV::Join(Box::new(a), Box::new(b), s), env) == Ok::<Grid, (Seq<char>, Span)>(
            grid_join(eval_v(a, env)->Ok_0, eval_v(b, env)->Ok_0),
        ),
        eval_v(ExprV::Imply(Box::new(a), Box::new(b), s), env) == Ok::<Grid, (Seq<char>, Span)>(
            grid_imp(eval_v(a, env)->Ok_0, eval_v(b, env)->Ok_0),
        ),
        eval_v(ExprV::Coimply(Box::new(a), Box::new(b), s), env) == Ok::<Grid, (Seq<char>, Span)>(
            grid_coimp(eval_v(a, env)->Ok_0, eval_v(b, env)->Ok_0),
        ),
        eval_v(ExprV::Neg(Box::new(a), s), env) == Ok::<Grid, (Seq<char>, Span)>(
            grid_neg(eval_v(a, env)->Ok_0),
        ),
{
}

} // verus!
