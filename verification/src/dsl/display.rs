//! Printing expressions with the fewest parentheses that parse back to
//! the same tree: a child is parenthesised when it binds more loosely
//! than its position requires (the right operand of a left-associative
//! operator needs one level more).

use vstd::prelude::*;
use crate::dsl::ast::{Expr, ExprV, Modifier, TrackAst};
use crate::notation::{grid_name, tbase_name};
use crate::text::{int_decimal, push_char, push_i64, push_str};

verus! {

/// Binding strength of a node: higher binds tighter.
pub open spec fn prec_v(e: ExprV) -> nat {
    match e {
        ExprV::Imply(..) => 0,
        ExprV::Coimply(..) => 0,
        ExprV::Join(..) => 1,
        ExprV::Meet(..) => 2,
        ExprV::Neg(..) => 3,
        ExprV::Atom(..) => 4,
        ExprV::Var(..) => 4,
    }
}

/// The text of `e` printed in a position that needs binding strength
/// at least `parent`.
pub open spec fn display_v(e: ExprV, parent: nat) -> Seq<char>
    decreases e,
{
    let body = match e {
        ExprV::Atom(g, _) => grid_name(g),
        ExprV::Var(n, _) => n,
        ExprV::Neg(a, _) => seq!['!'] + display_v(*a, 3),
        ExprV::Meet(a, b, _) => display_v(*a, 2) + seq!['&'] + display_v(*b, 3),
        ExprV::Join(a, b, _) => display_v(*a, 1) + seq!['|'] + display_v(*b, 2),
        ExprV::Imply(a, b, _) => display_v(*a, 0) + seq!['>'] + display_v(*b, 1),
        ExprV::Coimply(a, b, _) => display_v(*a, 0) + seq!['<'] + display_v(*b, 1),
    };
    if prec_v(e) < parent {
        seq!['('] + body + seq![')']
    } else {
        body
    }
}

/// The text of a modifier: `~t16:80` or `@-5`.
pub open spec fn modifier_text(m: Modifier) -> Seq<char> {
    match m {
        Modifier::Swing(res, amount, _) => seq!['~'] + tbase_name(res) + seq![':'] + int_decimal(
            amount as int,
        ),
        Modifier::Offset(t, _) => seq!['@'] + int_decimal(t as int),
    }
}

/// The texts of modifiers `ms[i..]`, concatenated.
pub open spec fn modifiers_text(ms: Seq<Modifier>, i: nat) -> Seq<char>
    decreases ms.len() - i,
{
    if i >= ms.len() {
        Seq::empty()
    } else {
        modifier_text(ms[i as int]) + modifiers_text(ms, i + 1)
    }
}

impl Expr {
    /// The node's binding strength.
    pub fn prec(&self) -> (p: u8)
        ensures
            p as nat == prec_v(self@),
    {
        match self {
            Expr::Imply(..) | Expr::Coimply(..) => 0,
            Expr::Join(..) => 1,
            Expr::Meet(..) => 2,
            Expr::Neg(..) => 3,
            Expr::Atom(..) | Expr::Var(..) => 4,
        }
    }

    /// Append the text of `self` in a position needing strength at least
    /// `parent_prec`.
    pub fn fmt_with_prec(&self, out: &mut String, parent_prec: u8)
        ensures
            final(out)@ == old(out)@ + display_v(self@, parent_prec as nat),
        decreases self,
    {
        let need_parens = self.prec() < parent_prec;
        if need_parens {
            push_char(out, '(');
        }
        match self {
            Expr::Atom(g, _) => {
                let name = g.name();
                push_str(out, name.as_str());
            },
            Expr::Var(n, _) => push_str(out, n.as_str()),
            Expr::Neg(inner, _) => {
                push_char(out, '!');
                inner.fmt_with_prec(out, 3);
            },
            Expr::Meet(a, b, _) => {
                a.fmt_with_prec(out, 2);
                push_char(out, '&');
                b.fmt_with_prec(out, 3);
            },
            Expr::Join(a, b, _) => {
                a.fmt_with_prec(out, 1);
                push_char(out, '|');
                b.fmt_with_prec(out, 2);
            },
            Expr::Imply(a, b, _) => {
                a.fmt_with_prec(out, 0);
                push_char(out, '>');
                b.fmt_with_prec(out, 1);
            },
            Expr::Coimply(a, b, _) => {
                a.fmt_with_prec(out, 0);
                push_char(out, '<');
                b.fmt_with_prec(out, 1);
            },
        }
        if need_parens {
            push_char(out, ')');
        }
        assert(final(out)@ =~= old(out)@ + display_v(self@, parent_prec as nat));
    }

    /// The text of the expression.
    pub fn to_string(&self) -> (s: String)
        ensures
            s@ == display_v(self@, 0),
    {
        let mut s = String::new();
        self.fmt_with_prec(&mut s, 0);
        assert(s@ =~= display_v(self@, 0));
        s
    }
}

impl Modifier {
    /// The text of the modifier.
    pub fn to_string(&self) -> (s: String)
        ensures
            s@ == modifier_text(*self),
    {
        let mut s = String::new();
        match self {
            Modifier::Swing(res, amount, _) => {
                push_char(&mut s, '~');
                let name = res.name();
                push_str(&mut s, name.as_str());
                push_char(&mut s, ':');
                push_i64(&mut s, *amount as i64);
            },
            Modifier::Offset(t, _) => {
                push_char(&mut s, '@');
                push_i64(&mut s, *t as i64);
            },
        }
        assert(s@ =~= modifier_text(*self));
        s
    }
}

impl TrackAst {
    /// The expression's text followed by each modifier's.
    pub fn to_string(&self) -> (s: String)
        ensures
            s@ == display_v(self.expr@, 0) + modifiers_text(self.modifiers@, 0),
    {
        let mut s = self.expr.to_string();
        let mut i: usize = 0;
        while i < self.modifiers.len()
            invariant
                0 <= i <= self.modifiers@.len(),
                s@ + modifiers_text(self.modifiers@, i as nat) == display_v(self.expr@, 0)
                    + modifiers_text(self.modifiers@, 0),
            decreases self.modifiers.len() - i,
        {
            let m = self.modifiers[i].to_string();
            push_str(&mut s, m.as_str());
            assert(modifiers_text(self.modifiers@, i as nat) =~= modifier_text(
                self.modifiers@[i as int],
            ) + modifiers_text(self.modifiers@, (i + 1) as nat));
            i += 1;
        }
        assert(modifiers_text(self.modifiers@, i as nat) =~= Seq::<char>::empty());
        s
    }
}

} // verus!
