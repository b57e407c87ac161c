use agogo_core::dsl;
use agogo_core::dsl::ast::{Expr, Modifier, Span, TrackAst};
use agogo_core::dsl::error::{DslError, DslErrorKind};
use agogo_core::dsl::eval::eval_expr;
use agogo_core::dsl::lexer::{tokenize, TokenKind};
use agogo_core::dsl::parser::parse_tokens;
use agogo_core::time::{Grid, TBase};

fn s(start: usize, end: usize) -> Span {
    Span { start, end }
}

fn atom(g: Grid) -> Expr {
    Expr::Atom(g, s(0, 0))
}

fn eval(src: &str, env: &[(String, Grid)]) -> Result<Grid, DslError> {
    let tokens = tokenize(src)?;
    let expr = parse_tokens(&tokens, src)?;
    eval_expr(&expr, env, src)
}

fn parse_expr(src: &str) -> Result<Expr, DslError> {
    let tokens = tokenize(src)?;
    parse_tokens(&tokens, src)
}

fn kinds(input: &str) -> Vec<TokenKind> {
    tokenize(input).unwrap().into_iter().map(|t| t.kind).collect()
}

fn grid_of(e: &Expr) -> Grid {
    match e {
        Expr::Atom(g, _) => *g,
        _ => panic!("expected Atom, got {e:?}"),
    }
}

fn var_of(e: &Expr) -> &str {
    match e {
        Expr::Var(name, _) => name,
        _ => panic!("expected Var, got {e:?}"),
    }
}

// ── display ──────────────────────────────────────────────────────

#[test]
fn atom_display() {
    assert_eq!(atom(Grid::T16).to_string(), "t16");
}

#[test]
fn meet_display() {
    let e = Expr::Meet(Box::new(atom(Grid::T16)), Box::new(atom(Grid::T8)), s(0, 0));
    assert_eq!(e.to_string(), "t16&t8");
}

#[test]
fn join_display() {
    let e = Expr::Join(Box::new(atom(Grid::T16)), Box::new(atom(Grid::T8)), s(0, 0));
    assert_eq!(e.to_string(), "t16|t8");
}

#[test]
fn imply_display() {
    let e = Expr::Imply(Box::new(atom(Grid::T16)), Box::new(atom(Grid::T8)), s(0, 0));
    assert_eq!(e.to_string(), "t16>t8");
}

#[test]
fn coimply_display() {
    let e = Expr::Coimply(Box::new(atom(Grid::T16)), Box::new(atom(Grid::T8)), s(0, 0));
    assert_eq!(e.to_string(), "t16<t8");
}

#[test]
fn neg_display() {
    let e = Expr::Neg(Box::new(atom(Grid::T16)), s(0, 0));
    assert_eq!(e.to_string(), "!t16");
}

#[test]
fn parens_when_join_inside_meet() {
    let inner = Expr::Join(Box::new(atom(Grid::T16)), Box::new(atom(Grid::T8)), s(0, 0));
    let e = Expr::Meet(Box::new(inner), Box::new(atom(Grid::T4)), s(0, 0));
    assert_eq!(e.to_string(), "(t16|t8)&t4");
}

#[test]
fn no_parens_when_meet_inside_join() {
    let inner = Expr::Meet(Box::new(atom(Grid::T16)), Box::new(atom(Grid::T8)), s(0, 0));
    let e = Expr::Join(Box::new(inner), Box::new(atom(Grid::T4)), s(0, 0));
    assert_eq!(e.to_string(), "t16&t8|t4");
}

#[test]
fn parens_when_imply_inside_meet() {
    let inner = Expr::Imply(Box::new(atom(Grid::T16)), Box::new(atom(Grid::T8)), s(0, 0));
    let e = Expr::Meet(Box::new(inner), Box::new(atom(Grid::T4)), s(0, 0));
    assert_eq!(e.to_string(), "(t16>t8)&t4");
}

#[test]
fn no_parens_join_inside_imply() {
    let inner = Expr::Join(Box::new(atom(Grid::T16)), Box::new(atom(Grid::T8)), s(0, 0));
    let e = Expr::Imply(Box::new(inner), Box::new(atom(Grid::T4)), s(0, 0));
    assert_eq!(e.to_string(), "t16|t8>t4");
}

#[test]
fn swing_modifier_display() {
    let m = Modifier::Swing(TBase::T16, 80, s(0, 0));
    assert_eq!(m.to_string(), "~t16:80");
}

#[test]
fn offset_modifier_display() {
    let m = Modifier::Offset(-5, s(0, 0));
    assert_eq!(m.to_string(), "@-5");
}

#[test]
fn track_display() {
    let t = TrackAst {
        expr: atom(Grid::T16),
        modifiers: vec![
            Modifier::Swing(TBase::T16, 80, s(0, 0)),
            Modifier::Offset(-5, s(0, 0)),
        ],
        span: s(0, 0),
    };
    assert_eq!(t.to_string(), "t16~t16:80@-5");
}

// ── eval ─────────────────────────────────────────────────────────

#[test]
fn eval_atom() {
    assert_eq!(eval("T16", &[]).unwrap(), Grid::T16);
}

#[test]
fn eval_meet() {
    assert_eq!(eval("T16&T8", &[]).unwrap(), Grid::T16.meet(&Grid::T8));
}

#[test]
fn eval_join() {
    assert_eq!(eval("T16|T8", &[]).unwrap(), Grid::T16.join(&Grid::T8));
}

#[test]
fn eval_imply() {
    assert_eq!(eval("T16>T8", &[]).unwrap(), Grid::T16.imp(&Grid::T8));
}

#[test]
fn eval_coimply() {
    assert_eq!(eval("T16<T8", &[]).unwrap(), Grid::T16.coimp(&Grid::T8));
}

#[test]
fn eval_neg() {
    assert_eq!(eval("!T16", &[]).unwrap(), Grid::T16.neg());
}

#[test]
fn eval_var_resolves() {
    let env = vec![("kick".to_string(), Grid::T4)];
    assert_eq!(eval("kick", &env).unwrap(), Grid::T4);
}

#[test]
fn eval_var_in_expr() {
    let env = vec![("kick".to_string(), Grid::T4)];
    assert_eq!(eval("kick&T16", &env).unwrap(), Grid::T4.meet(&Grid::T16));
}

#[test]
fn eval_positional_var() {
    let env = vec![("C1".to_string(), Grid::T8)];
    assert_eq!(eval("C1", &env).unwrap(), Grid::T8);
}

#[test]
fn unknown_var_errors() {
    let err = eval("unknown", &[]).unwrap_err();
    assert_eq!(err.kind, DslErrorKind::UnknownVariable("unknown".to_string()));
}

#[test]
fn forward_ref_errors() {
    let env = vec![("C1".to_string(), Grid::T4)];
    let err = eval("C2&C1", &env).unwrap_err();
    assert_eq!(err.kind, DslErrorKind::UnknownVariable("C2".to_string()));
}

#[test]
fn cross_track_meet() {
    assert_eq!(eval("T16t&T16q", &[]).unwrap(), Grid::T16P);
}

#[test]
fn cross_track_join() {
    assert_eq!(eval("T16t|T16q", &[]).unwrap(), Grid::T8);
}

// ── dsl::parse ───────────────────────────────────────────────────

#[test]
fn dsl_atom() {
    assert_eq!(dsl::parse("T16", &[]).unwrap(), Grid::T16);
}

#[test]
fn alignment_intersection() {
    assert_eq!(dsl::parse("T8|T8t", &[]).unwrap(), Grid::T4);
}

#[test]
fn common_refinement() {
    assert_eq!(dsl::parse("T16&T16t", &[]).unwrap(), Grid::T32T);
}

#[test]
fn cross_track() {
    assert_eq!(dsl::parse("T16t&T16q", &[]).unwrap(), Grid::T16P);
}

#[test]
fn dsl_neg() {
    assert_eq!(dsl::parse("!T16", &[]).unwrap(), Grid::T16.neg());
}

#[test]
fn dsl_imply() {
    assert_eq!(dsl::parse("T16>T8", &[]).unwrap(), Grid::T16.imp(&Grid::T8));
}

#[test]
fn dsl_coimply() {
    assert_eq!(dsl::parse("T16<T8", &[]).unwrap(), Grid::T16.coimp(&Grid::T8));
}

#[test]
fn complex() {
    let expected = Grid::T16T.meet(&Grid::T16Q).join(&Grid::T8);
    assert_eq!(dsl::parse("(T16t&T16q)|T8", &[]).unwrap(), expected);
}

#[test]
fn dsl_var_resolves() {
    let env = vec![("kick".to_string(), Grid::T4)];
    assert_eq!(dsl::parse("kick", &env).unwrap(), Grid::T4);
}

#[test]
fn var_in_meet() {
    let env = vec![("kick".to_string(), Grid::T4)];
    assert_eq!(dsl::parse("kick&T16", &env).unwrap(), Grid::T4.meet(&Grid::T16));
}

#[test]
fn dsl_positional_var() {
    let env = vec![("C1".to_string(), Grid::T8)];
    assert_eq!(dsl::parse("C1", &env).unwrap(), Grid::T8);
}

#[test]
fn unknown_var() {
    let err = dsl::parse("unknown", &[]).unwrap_err();
    assert_eq!(err.kind, DslErrorKind::UnknownVariable("unknown".to_string()));
}

#[test]
fn forward_ref() {
    let env = vec![("C1".to_string(), Grid::T4)];
    let err = dsl::parse("C2&C1", &env).unwrap_err();
    assert_eq!(err.kind, DslErrorKind::UnknownVariable("C2".to_string()));
}

#[test]
fn all_36_atoms_round_trip() {
    for g in Grid::ALL {
        let text = g.name();
        let result = dsl::parse(&text, &[]).unwrap_or_else(|e| {
            panic!("failed to parse {text:?} (from {g:?}): {}", e.to_string());
        });
        assert_eq!(result, g, "atom round-trip failed for {g:?}");
    }
}

#[test]
fn empty_input_reports_whole_span() {
    let err = dsl::parse("   ", &[]).unwrap_err();
    assert_eq!(err.kind, DslErrorKind::EmptyInput);
    assert_eq!(err.span, Span { start: 0, end: 3 });
}

#[test]
fn error_message_points_at_span() {
    let err = dsl::parse("T16 # T8", &[]).unwrap_err();
    assert_eq!(err.to_string(), "DSL error: unexpected character '#'\n  T16 # T8\n      ^");
}

// ── lexer ────────────────────────────────────────────────────────

#[test]
fn lexer_single_atom() {
    assert_eq!(kinds("T16"), vec![TokenKind::Ident("T16".into())]);
}

#[test]
fn atom_lowercase() {
    assert_eq!(kinds("t16"), vec![TokenKind::Ident("t16".into())]);
}

#[test]
fn atom_with_suffix() {
    assert_eq!(kinds("T8q"), vec![TokenKind::Ident("T8q".into())]);
    assert_eq!(kinds("t16t"), vec![TokenKind::Ident("t16t".into())]);
    assert_eq!(kinds("T2p"), vec![TokenKind::Ident("T2p".into())]);
}

#[test]
fn meet_expr() {
    assert_eq!(
        kinds("T16&T8"),
        vec![TokenKind::Ident("T16".into()), TokenKind::Ampersand, TokenKind::Ident("T8".into())]
    );
}

#[test]
fn join_expr() {
    assert_eq!(
        kinds("T16|T8"),
        vec![TokenKind::Ident("T16".into()), TokenKind::Pipe, TokenKind::Ident("T8".into())]
    );
}

#[test]
fn imply_coimply() {
    assert_eq!(
        kinds("T16>T8"),
        vec![TokenKind::Ident("T16".into()), TokenKind::Gt, TokenKind::Ident("T8".into())]
    );
    assert_eq!(
        kinds("T16<T8"),
        vec![TokenKind::Ident("T16".into()), TokenKind::Lt, TokenKind::Ident("T8".into())]
    );
}

#[test]
fn negation() {
    assert_eq!(kinds("!T16"), vec![TokenKind::Bang, TokenKind::Ident("T16".into())]);
}

#[test]
fn swing_modifier() {
    assert_eq!(
        kinds("T16~T16:80"),
        vec![
            TokenKind::Ident("T16".into()),
            TokenKind::Tilde,
            TokenKind::Ident("T16".into()),
            TokenKind::Colon,
            TokenKind::Int(80),
        ]
    );
}

#[test]
fn offset_negative() {
    assert_eq!(kinds("@-5"), vec![TokenKind::At, TokenKind::Int(-5)]);
}

#[test]
fn offset_positive() {
    assert_eq!(kinds("@20"), vec![TokenKind::At, TokenKind::Int(20)]);
}

#[test]
fn parens() {
    assert_eq!(
        kinds("(T16|T8)&T4"),
        vec![
            TokenKind::LParen,
            TokenKind::Ident("T16".into()),
            TokenKind::Pipe,
            TokenKind::Ident("T8".into()),
            TokenKind::RParen,
            TokenKind::Ampersand,
            TokenKind::Ident("T4".into()),
        ]
    );
}

#[test]
fn whitespace_between_tokens() {
    assert_eq!(
        kinds("T16 & T8"),
        vec![TokenKind::Ident("T16".into()), TokenKind::Ampersand, TokenKind::Ident("T8".into())]
    );
}

#[test]
fn empty_input_returns_empty() {
    assert_eq!(kinds(""), Vec::<TokenKind>::new());
    assert_eq!(kinds("   "), Vec::<TokenKind>::new());
}

#[test]
fn unexpected_char_errors() {
    let err = tokenize("T16 # T8").unwrap_err();
    assert_eq!(err.kind, DslErrorKind::UnexpectedChar('#'));
    assert_eq!(err.span, Span { start: 4, end: 5 });
}

#[test]
fn swing_with_negative_amount() {
    assert_eq!(
        kinds("~T16:-40"),
        vec![
            TokenKind::Tilde,
            TokenKind::Ident("T16".into()),
            TokenKind::Colon,
            TokenKind::Int(-40),
        ]
    );
}

#[test]
fn integer_overflow_is_an_expected_error() {
    let err = tokenize("99999999999999999999").unwrap_err();
    assert_eq!(
        err.kind,
        DslErrorKind::Expected { expected: "integer", found: "99999999999999999999".to_string() }
    );
}

// ── parser ───────────────────────────────────────────────────────

#[test]
fn parser_single_atom() {
    assert_eq!(grid_of(&parse_expr("T16").unwrap()), Grid::T16);
}

#[test]
fn atom_triplet() {
    assert_eq!(grid_of(&parse_expr("t16t").unwrap()), Grid::T16T);
}

#[test]
fn variable_name() {
    assert_eq!(var_of(&parse_expr("kick").unwrap()), "kick");
}

#[test]
fn positional_variable() {
    assert_eq!(var_of(&parse_expr("C1").unwrap()), "C1");
}

#[test]
fn parser_var_in_expr() {
    match parse_expr("kick&T16").unwrap() {
        Expr::Meet(a, b, _) => {
            assert_eq!(var_of(&a), "kick");
            assert_eq!(grid_of(&b), Grid::T16);
        }
        other => panic!("expected Meet, got {other:?}"),
    }
}

#[test]
fn parser_meet() {
    match parse_expr("T16&T8").unwrap() {
        Expr::Meet(a, b, _) => {
            assert_eq!(grid_of(&a), Grid::T16);
            assert_eq!(grid_of(&b), Grid::T8);
        }
        other => panic!("expected Meet, got {other:?}"),
    }
}

#[test]
fn parser_join() {
    match parse_expr("T16|T8").unwrap() {
        Expr::Join(a, b, _) => {
            assert_eq!(grid_of(&a), Grid::T16);
            assert_eq!(grid_of(&b), Grid::T8);
        }
        other => panic!("expected Join, got {other:?}"),
    }
}

#[test]
fn parser_imply() {
    match parse_expr("T16>T8").unwrap() {
        Expr::Imply(a, b, _) => {
            assert_eq!(grid_of(&a), Grid::T16);
            assert_eq!(grid_of(&b), Grid::T8);
        }
        other => panic!("expected Imply, got {other:?}"),
    }
}

#[test]
fn parser_coimply() {
    match parse_expr("T16<T8").unwrap() {
        Expr::Coimply(a, b, _) => {
            assert_eq!(grid_of(&a), Grid::T16);
            assert_eq!(grid_of(&b), Grid::T8);
        }
        other => panic!("expected Coimply, got {other:?}"),
    }
}

#[test]
fn parser_neg() {
    match parse_expr("!T16").unwrap() {
        Expr::Neg(inner, _) => assert_eq!(grid_of(&inner), Grid::T16),
        other => panic!("expected Neg, got {other:?}"),
    }
}

#[test]
fn double_neg() {
    match parse_expr("!!T16").unwrap() {
        Expr::Neg(inner, _) => match *inner {
            Expr::Neg(inner2, _) => assert_eq!(grid_of(&inner2), Grid::T16),
            other => panic!("expected inner Neg, got {other:?}"),
        },
        other => panic!("expected Neg, got {other:?}"),
    }
}

#[test]
fn meet_binds_tighter_than_join() {
    match parse_expr("T16|T8&T4").unwrap() {
        Expr::Join(a, b, _) => {
            assert_eq!(grid_of(&a), Grid::T16);
            assert!(matches!(*b, Expr::Meet(..)));
        }
        other => panic!("expected Join, got {other:?}"),
    }
}

#[test]
fn join_binds_tighter_than_imply() {
    match parse_expr("T16|T8>T4").unwrap() {
        Expr::Imply(a, b, _) => {
            assert!(matches!(*a, Expr::Join(..)));
            assert_eq!(grid_of(&b), Grid::T4);
        }
        other => panic!("expected Imply, got {other:?}"),
    }
}

#[test]
fn neg_binds_tighter_than_meet() {
    match parse_expr("!T16&T8").unwrap() {
        Expr::Meet(a, b, _) => {
            assert!(matches!(*a, Expr::Neg(..)));
            assert_eq!(grid_of(&b), Grid::T8);
        }
        other => panic!("expected Meet, got {other:?}"),
    }
}

#[test]
fn left_assoc_meet() {
    match parse_expr("T16&T8&T4").unwrap() {
        Expr::Meet(a, b, _) => {
            assert_eq!(grid_of(&b), Grid::T4);
            assert!(matches!(*a, Expr::Meet(..)));
        }
        other => panic!("expected Meet, got {other:?}"),
    }
}

#[test]
fn parens_override_precedence() {
    match parse_expr("(T16|T8)&T4").unwrap() {
        Expr::Meet(a, b, _) => {
            assert!(matches!(*a, Expr::Join(..)));
            assert_eq!(grid_of(&b), Grid::T4);
        }
        other => panic!("expected Meet, got {other:?}"),
    }
}

#[test]
fn empty_input() {
    let err = parse_expr("").unwrap_err();
    assert_eq!(err.kind, DslErrorKind::EmptyInput);
}

#[test]
fn unmatched_paren() {
    let err = parse_expr("(T16").unwrap_err();
    assert_eq!(err.kind, DslErrorKind::UnmatchedParen);
}

#[test]
fn trailing_garbage() {
    let err = parse_expr("T16 T8").unwrap_err();
    assert!(matches!(err.kind, DslErrorKind::Expected { .. }));
}

#[test]
fn nesting_depth_exceeded() {
    let src = format!("{}T16", "!".repeat(33));
    let err = parse_expr(&src).unwrap_err();
    assert_eq!(err.kind, DslErrorKind::NestingTooDeep);
}

#[test]
fn nesting_at_limit_succeeds() {
    let src = format!("{}T16", "!".repeat(32));
    assert!(parse_expr(&src).is_ok());
}
