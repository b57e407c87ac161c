//! The grid-expression language: meet (`&`), join (`|`), implication
//! (`>`), coimplication (`<`), negation (`!`), parentheses, grid atoms
//! and references to earlier channels' grids.

pub mod ast;
pub mod error;
pub mod lexer;
pub mod parser;
pub mod eval;
pub mod display;
pub mod round_trip;

use vstd::prelude::*;
use vstd::string::StringSliceAdditionalSpecFns;
use crate::dsl::ast::Span;
use crate::dsl::error::{DslError, DslErrorKind, DslErrorKindV, DslErrorV};
use crate::dsl::eval::{env_view, eval_expr, eval_spec};
use crate::dsl::lexer::{lex_from, tokenize, tokenize_spec};
use vstd::utf8::encode_utf8;
use crate::dsl::parser::{parse_tokens, parse_tokens_spec, PEnv};
use crate::time::Grid;

verus! {

/// The grid an expression denotes: tokenize, parse every token, then
/// evaluate against `env`; the first error of these steps otherwise.
pub open spec fn parse_spec(input: Seq<char>, env: Seq<(Seq<char>, Grid)>) -> Result<Grid, DslErrorV> {
    match lex_from(encode_utf8(input), 0, Seq::empty(), input) {
        Err(e) => Err(e),
        Ok(toks) => if toks.len() == 0 {
            Err(
                DslErrorV {
                    kind: DslErrorKindV::EmptyInput,
                    span: Span { start: 0, end: encode_utf8(input).len() as usize },
                    source: input,
                },
            )
        } else {
            match parse_tokens_spec(
                PEnv { toks, len: encode_utf8(input).len(), src: input },
            ) {
                Err(e) => Err(e),
                Ok(x) => eval_spec(x, env, input),
            }
        },
    }
}

/// Parse and evaluate a grid expression. `env` maps the names of
/// earlier channels to their grids; pass `&[]` when there are none.
pub fn parse(input: &str, env: &[(String, Grid)]) -> (r: Result<Grid, DslError>)
    ensures
        match r {
            Ok(g) => parse_spec(input@, env_view(env@)) == Ok::<Grid, DslErrorV>(g),
            Err(e) => parse_spec(input@, env_view(env@)) == Err::<Grid, DslErrorV>(e@),
        },
{
    let tokens = tokenize(input)?;
    if tokens.len() == 0 {
        return Err(
            DslError {
                kind: DslErrorKind::EmptyInput,
                span: Span { start: 0, end: input.len() },
                source: input.to_owned(),
            },
        );
    }
    let expr = parse_tokens(tokens.as_slice(), input)?;
    eval_expr(&expr, env, input)
}

} // verus!
